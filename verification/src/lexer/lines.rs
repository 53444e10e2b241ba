use vstd::prelude::*;

use crate::errors::LexerErrorModel;
use crate::lexer::scanner::{
    lemma_lexemes_ordered, digit_run, is_blank, is_digit, is_letter, is_name_char, is_string_char, lemma_scan_at_bounded,
    lexemes, lexemes_from, name_run, scan_at, single_char_token, string_run, utf8_len, LexemeModel,
    Scan,
};
use crate::lexer::source_loc::SourceLocModel;
use crate::lexer::token::TokenKind;
use crate::lexer::{
    errors_upto, first_unfit_from, lemma_first_unfit_at_least, lemma_first_unfit_fits,
    lemma_line_start_before, lemma_line_state_counts, lemma_lines_fit, lemma_newline_count_cons,
    lex_result, lexeme_loc, line_count_overflows, line_state, newline_count, tokens_upto,
};

verus! {

/// The number of line breaks in `t`.
pub open spec fn line_breaks(t: Seq<char>) -> nat
    decreases t.len(),
{
    if t.len() == 0 {
        0
    } else {
        line_breaks(t.drop_last()) + if t.last() == '\n' {
            1nat
        } else {
            0nat
        }
    }
}

/// The index of the first character of the line that character index `ci`
/// of `s` stands on: just after the last line break before it, or 0.
pub open spec fn line_start_index(s: Seq<char>, ci: int) -> int
    decreases ci,
{
    if ci <= 0 {
        0
    } else if s[ci - 1] == '\n' {
        ci
    } else {
        line_start_index(s, ci - 1)
    }
}

/// Byte `pos` of the text `s` is where a character starts; `line - 1` line
/// breaks come before that character, and `column - 1` bytes stand between
/// the start of its line and it.
pub open spec fn at_place(s: Seq<char>, pos: nat, line: nat, column: nat) -> bool {
    exists|ci: int|
        0 <= ci <= s.len() && utf8_len(s.take(ci)) == pos && #[trigger] line_breaks(s.take(ci)) + 1
            == line && column == 1 + pos - utf8_len(s.take(line_start_index(s, ci)))
}

/// Where an error of the lexer stands, if it names a place.
pub open spec fn error_place(error: LexerErrorModel) -> Option<SourceLocModel> {
    match error {
        LexerErrorModel::UnknownToken { source_loc, .. } => Some(source_loc),
        LexerErrorModel::FileTooBig { .. } => None,
    }
}

proof fn lemma_line_breaks_step(s: Seq<char>, j: int)
    requires
        0 <= j < s.len(),
    ensures
        line_breaks(s.take(j + 1)) == line_breaks(s.take(j)) + if s[j] == '\n' {
            1nat
        } else {
            0nat
        },
{
    assert(s.take(j + 1).drop_last() =~= s.take(j));
}

proof fn lemma_line_breaks_none(s: Seq<char>, i: int, m: int)
    requires
        0 <= i <= m <= s.len(),
        forall|j: int| i <= j < m ==> s[j] != '\n',
    ensures
        line_breaks(s.take(m)) == line_breaks(s.take(i)),
    decreases m - i,
{
    if i < m {
        lemma_line_breaks_none(s, i, m - 1);
        lemma_line_breaks_step(s, m - 1);
    }
}

proof fn lemma_name_run_chars(s: Seq<char>, i: int)
    requires
        0 <= i,
    ensures
        forall|j: int| i <= j < i + name_run(s, i) ==> is_name_char(s[j]),
    decreases s.len() - i,
{
    if 0 <= i < s.len() && is_name_char(s[i]) {
        lemma_name_run_chars(s, i + 1);
    }
}

proof fn lemma_digit_run_chars(s: Seq<char>, i: int)
    requires
        0 <= i,
    ensures
        forall|j: int| i <= j < i + digit_run(s, i) ==> is_digit(s[j]),
    decreases s.len() - i,
{
    if 0 <= i < s.len() && is_digit(s[i]) {
        lemma_digit_run_chars(s, i + 1);
    }
}

proof fn lemma_string_run_chars(s: Seq<char>, i: int)
    requires
        0 <= i,
    ensures
        forall|j: int| i <= j < i + string_run(s, i) ==> is_string_char(s[j]),
    decreases s.len() - i,
{
    if 0 <= i < s.len() && is_string_char(s[i]) {
        lemma_string_run_chars(s, i + 1);
    }
}

/// A `Newline` lexeme is one line break; any other lexeme, or blank, holds
/// none.
proof fn lemma_scan_breaks(s: Seq<char>, i: int)
    requires
        0 <= i < s.len(),
    ensures
        scan_at(s, i).0 == Scan::Token(TokenKind::Newline) ==> scan_at(s, i).1 == 1 && s[i] == '\n',
        scan_at(s, i).0 != Scan::Token(TokenKind::Newline) ==> forall|j: int|
            i <= j < i + scan_at(s, i).1 ==> s[j] != '\n',
{
    lemma_scan_at_bounded(s, i);
    lemma_name_run_chars(s, i + 1);
    lemma_digit_run_chars(s, i + 1);
    lemma_string_run_chars(s, i + 1);
    let c = s[i];
    assert(('\n' as u32) == 10);
    if !is_blank(c) && !is_letter(c) && is_digit(c) {
        let j = i + 1 + digit_run(s, i + 1);
        if j + 1 < s.len() && s[j] == '.' && is_digit(s[j + 1]) {
            lemma_digit_run_chars(s, j + 2);
        }
    }
    if c == '\n' {
        assert(single_char_token(c) == Some(TokenKind::Newline));
    }
}

proof fn lemma_line_start_none(s: Seq<char>, i: int, m: int)
    requires
        0 <= i <= m <= s.len(),
        forall|j: int| i <= j < m ==> s[j] != '\n',
    ensures
        line_start_index(s, m) == line_start_index(s, i),
    decreases m - i,
{
    if i < m {
        lemma_line_start_none(s, i, m - 1);
    }
}

/// Where the line that lexeme `k` of `[x] + rest` stands on starts, told
/// from `rest`.
proof fn lemma_line_state_cons(x: LexemeModel, rest: Seq<LexemeModel>, k: int)
    requires
        1 <= k <= rest.len() + 1,
    ensures
        line_state(seq![x] + rest, k).1 == if newline_count(rest, k - 1) > 0 {
            line_state(rest, k - 1).1
        } else if x.token == Ok::<TokenKind, Seq<char>>(TokenKind::Newline) {
            x.end
        } else {
            0
        },
    decreases k,
{
    let all = seq![x] + rest;
    assert(all[0] == x);
    if k > 1 {
        lemma_line_state_cons(x, rest, k - 1);
        assert(all[k - 1] == rest[k - 2]);
    } else {
        assert(line_state(all, 0) == (1nat, 0nat));
        assert(newline_count(rest, 0) == 0);
    }
}

proof fn lemma_line_state_no_break(ls: Seq<LexemeModel>, n: int)
    requires
        0 <= n <= ls.len(),
        newline_count(ls, n) == 0,
    ensures
        line_state(ls, n).1 == 0,
    decreases n,
{
    if n > 0 {
        lemma_line_state_no_break(ls, n - 1);
    }
}

/// Whether a character index is where lexeme `k` of `ls` starts, with the
/// line breaks and the line start that the lexemes before it give, counted
/// from character `i` on.
spec fn lexeme_start_at(s: Seq<char>, i: int, ls: Seq<LexemeModel>, k: int, ci: int) -> bool {
    &&& i <= ci <= s.len()
    &&& utf8_len(s.take(ci)) == ls[k].start
    &&& line_breaks(s.take(ci)) == line_breaks(s.take(i)) + newline_count(ls, k)
    &&& if newline_count(ls, k) == 0 {
        line_start_index(s, ci) == line_start_index(s, i)
    } else {
        utf8_len(s.take(line_start_index(s, ci))) == line_state(ls, k).1
    }
}

/// Lexeme `k` of `ls` starts at some character, as [`lexeme_start_at`] says.
spec fn lexeme_placed(s: Seq<char>, i: int, ls: Seq<LexemeModel>, k: int) -> bool {
    exists|ci: int| #[trigger] lexeme_start_at(s, i, ls, k, ci)
}

/// Each lexeme from character `i` on starts at a character before which
/// stand the line breaks before `i` and one for each `Newline` lexeme
/// before it, on the line that the last of those starts.
proof fn lemma_lexeme_starts(s: Seq<char>, i: int)
    requires
        0 <= i <= s.len(),
    ensures
        forall|k: int|
            0 <= k < lexemes_from(s, i).len() ==> #[trigger] lexeme_placed(s, i, lexemes_from(s, i), k),
    decreases s.len() - i,
{
    if i < s.len() {
        lemma_scan_at_bounded(s, i);
        lemma_scan_breaks(s, i);
        let (scan, n) = scan_at(s, i);
        lemma_lexeme_starts(s, i + n);
        let all = lexemes_from(s, i);
        let rest = lexemes_from(s, i + n);
        if scan == Scan::Token(TokenKind::Newline) {
            lemma_line_breaks_step(s, i);
        } else {
            lemma_line_breaks_none(s, i, i + n);
            lemma_line_start_none(s, i, i + n);
        }
        if scan is Blank {
            assert(all == rest);
            assert forall|k: int| 0 <= k < all.len() implies #[trigger] lexeme_placed(s, i, all, k) by {
                assert(lexeme_placed(s, i + n, rest, k));
                let ci = choose|ci: int| #[trigger] lexeme_start_at(s, i + n, rest, k, ci);
                assert(lexeme_start_at(s, i, all, k, ci));
            }
        } else {
            let x = all[0];
            assert(all == seq![x] + rest);
            assert forall|k: int| 0 <= k < all.len() implies #[trigger] lexeme_placed(s, i, all, k) by {
                if k == 0 {
                    assert(newline_count(all, 0) == 0);
                    assert(lexeme_start_at(s, i, all, 0, i));
                } else {
                    assert(all[k] == rest[k - 1]);
                    lemma_newline_count_cons(x, rest, k);
                    lemma_line_state_cons(x, rest, k);
                    assert(lexeme_placed(s, i + n, rest, k - 1));
                    let ci = choose|ci: int| #[trigger] lexeme_start_at(s, i + n, rest, k - 1, ci);
                    if newline_count(rest, k - 1) == 0 && x.token == Ok::<TokenKind, Seq<char>>(
                        TokenKind::Newline,
                    ) {
                        assert(line_start_index(s, i + 1) == i + 1);
                    }
                    assert(lexeme_start_at(s, i, all, k, ci));
                }
            }
        }
    }
}

/// Each token and each error among the first `n` lexemes is placed where
/// one of those lexemes is.
proof fn lemma_places_from_lexemes(uri: Seq<char>, ls: Seq<LexemeModel>, n: int)
    requires
        0 <= n <= ls.len(),
    ensures
        forall|k: int|
            0 <= k < tokens_upto(uri, ls, n).len() ==> exists|m: int|
                0 <= m < n && (#[trigger] tokens_upto(uri, ls, n)[k]).source_loc == lexeme_loc(
                    uri,
                    ls,
                    m,
                ),
        forall|k: int|
            0 <= k < errors_upto(uri, ls, n).len() ==> exists|m: int|
                0 <= m < n && error_place(#[trigger] errors_upto(uri, ls, n)[k]) == Some(lexeme_loc(uri, ls, m)),
    decreases n,
{
    if n > 0 {
        lemma_places_from_lexemes(uri, ls, n - 1);
        let prev_t = tokens_upto(uri, ls, n - 1);
        let prev_e = errors_upto(uri, ls, n - 1);
        let ts = tokens_upto(uri, ls, n);
        let es = errors_upto(uri, ls, n);
        assert forall|k: int| 0 <= k < ts.len() implies exists|m: int|
            0 <= m < n && (#[trigger] ts[k]).source_loc == lexeme_loc(uri, ls, m) by {
            if k < prev_t.len() {
                assert(ts[k] == prev_t[k]);
                let m = choose|m: int|
                    0 <= m < n - 1 && (#[trigger] prev_t[k]).source_loc == lexeme_loc(uri, ls, m);
                assert(0 <= m < n && ts[k].source_loc == lexeme_loc(uri, ls, m));
            } else {
                assert(ts[k].source_loc == lexeme_loc(uri, ls, n - 1));
            }
        }
        assert forall|k: int| 0 <= k < es.len() implies exists|m: int|
            0 <= m < n && error_place(#[trigger] es[k]) == Some(lexeme_loc(uri, ls, m)) by {
            if k < prev_e.len() {
                assert(es[k] == prev_e[k]);
                let m = choose|m: int|
                    0 <= m < n - 1 && error_place(#[trigger] prev_e[k]) == Some(lexeme_loc(uri, ls, m));
                assert(0 <= m < n);
            } else {
                assert(es[k] == (LexerErrorModel::UnknownToken {
                    culprit: ls[n - 1].token->Err_0,
                    source_loc: lexeme_loc(uri, ls, n - 1),
                }));
            }
        }
    }
}

/// A lexeme that lexing keeps stands on the line and at the column that
/// the text before it gives.
proof fn lemma_lexeme_at_place(uri: Seq<char>, s: Seq<char>, m: int)
    requires
        !line_count_overflows(s),
        0 <= m < first_unfit_from(lexemes(s), 0),
    ensures
        ({
            let loc = lexeme_loc(uri, lexemes(s), m);
            at_place(s, loc.pos as nat, loc.line as nat, loc.column as nat)
        }),
{
    let ls = lexemes(s);
    lemma_first_unfit_at_least(ls, 0);
    lemma_first_unfit_fits(ls, 0, m);
    lemma_lines_fit(s);
    lemma_line_state_counts(ls, m);
    lemma_lexemes_ordered(s);
    lemma_line_start_before(ls, m);
    lemma_lexeme_starts(s, 0);
    assert(s.take(0) =~= Seq::<char>::empty());
    assert(line_breaks(s.take(0)) == 0);
    assert(utf8_len(s.take(0)) == 0);
    assert(lexeme_placed(s, 0, lexemes_from(s, 0), m));
    let ci = choose|ci: int| #[trigger] lexeme_start_at(s, 0, lexemes_from(s, 0), m, ci);
    assert(line_state(ls, m).1 <= ls[m].start);
    let loc = lexeme_loc(uri, ls, m);
    if newline_count(ls, m) == 0 {
        lemma_line_state_no_break(ls, m);
    }
    assert(utf8_len(s.take(line_start_index(s, ci))) == line_state(ls, m).1);
    assert(at_place(s, loc.pos as nat, loc.line as nat, loc.column as nat));
}

/// The lines and columns that the lexer counts are those of the text: every
/// token and every unknown stretch that it reports starts at a character of
/// the text at its byte offset; its line is one more than the number of line
/// breaks before that character, and its column one more than the number of
/// bytes between the start of that line and it.
pub proof fn lemma_lines_are_text_lines(uri: Seq<char>, s: Seq<char>)
    requires
        !line_count_overflows(s),
    ensures
        forall|k: int|
            0 <= k < lex_result(uri, lexemes(s)).0.len() ==> {
                let loc = (#[trigger] lex_result(uri, lexemes(s)).0[k]).source_loc;
                at_place(s, loc.pos as nat, loc.line as nat, loc.column as nat)
            },
        forall|k: int|
            0 <= k < lex_result(uri, lexemes(s)).1.len() ==> (#[trigger] lex_result(
                uri,
                lexemes(s),
            ).1[k] matches LexerErrorModel::UnknownToken { source_loc, .. } ==> at_place(
                s,
                source_loc.pos as nat,
                source_loc.line as nat,
                source_loc.column as nat,
            )),
{
    let ls = lexemes(s);
    let cut = first_unfit_from(ls, 0);
    lemma_first_unfit_at_least(ls, 0);
    lemma_places_from_lexemes(uri, ls, cut);
    let (tokens, errors) = lex_result(uri, ls);
    let ts = tokens_upto(uri, ls, cut);
    let es = errors_upto(uri, ls, cut);
    assert(tokens == ts);
    assert forall|k: int| 0 <= k < tokens.len() implies {
        let loc = (#[trigger] tokens[k]).source_loc;
        at_place(s, loc.pos as nat, loc.line as nat, loc.column as nat)
    } by {
        let m = choose|m: int| 0 <= m < cut && (#[trigger] ts[k]).source_loc == lexeme_loc(uri, ls, m);
        lemma_lexeme_at_place(uri, s, m);
    }
    assert forall|k: int| 0 <= k < errors.len() implies ((#[trigger] errors[k]) matches LexerErrorModel::UnknownToken {
        source_loc,
        ..
    } ==> at_place(s, source_loc.pos as nat, source_loc.line as nat, source_loc.column as nat)) by {
        if k < es.len() {
            assert(errors[k] == es[k]);
            let m = choose|m: int|
                0 <= m < cut && error_place(#[trigger] es[k]) == Some(lexeme_loc(uri, ls, m));
            lemma_lexeme_at_place(uri, s, m);
        }
    }
}

} // verus!
