pub mod doc_loc;
pub mod lines;
pub mod placement;
pub mod scanner;
pub mod source_loc;
pub mod words;
pub mod token;

use vstd::prelude::*;

use crate::errors::{LexerError, LexerErrorModel};
use crate::lexer::doc_loc::DocLoc;
use crate::lexer::scanner::{
    lemma_lexemes_ordered, lemma_scan_at_bounded, lemma_utf8_len_take_bound,
    lemma_utf8_len_take_step, lexeme_models, lexemes, lexemes_from, ordered, scan, scan_at,
    utf8_len, LexemeModel, Scan,
};
use crate::lexer::source_loc::{SourceLoc, SourceLocModel};
use crate::lexer::token::{Token, TokenKind, TokenModel, TokenType};
use crate::text::text_chars;

verus! {

/// The line the lexer stands on after the first `n` lexemes, and the byte
/// offset at which that line starts: each `Newline` lexeme starts a line.
pub open spec fn line_state(lexemes: Seq<LexemeModel>, n: int) -> (nat, nat)
    decreases n,
{
    if n <= 0 || n > lexemes.len() {
        (1, 0)
    } else {
        let (line, line_start) = line_state(lexemes, n - 1);
        if lexemes[n - 1].token == Ok::<TokenKind, Seq<char>>(TokenKind::Newline) {
            (line + 1, lexemes[n - 1].end)
        } else {
            (line, line_start)
        }
    }
}

/// The span of a lexeme can be told in `u32`s.
pub open spec fn span_fits(l: LexemeModel) -> bool {
    &&& l.start <= u32::MAX
    &&& l.end - l.start <= u32::MAX
    &&& l.end <= u32::MAX
}

/// The first of `start`, length and `end` of a span that does not fit in a `u32`.
pub open spec fn span_overflow(l: LexemeModel) -> int {
    if l.start > u32::MAX {
        l.start as int
    } else if l.end - l.start > u32::MAX {
        l.end - l.start
    } else {
        l.end as int
    }
}

/// The index of the first lexeme from `i` on whose span does not fit, or
/// the number of lexemes.
pub open spec fn first_unfit_from(lexemes: Seq<LexemeModel>, i: int) -> int
    decreases lexemes.len() - i,
{
    if i < 0 || i >= lexemes.len() {
        lexemes.len() as int
    } else if !span_fits(lexemes[i]) {
        i
    } else {
        first_unfit_from(lexemes, i + 1)
    }
}

/// The place of lexeme `n` in the document `uri`.
pub open spec fn lexeme_loc(uri: Seq<char>, lexemes: Seq<LexemeModel>, n: int) -> SourceLocModel {
    let (line, line_start) = line_state(lexemes, n);
    let l = lexemes[n];
    SourceLocModel {
        uri,
        pos: l.start as u32,
        line: line as u32,
        column: (1 + l.start - line_start) as u32,
        length: (l.end - l.start) as u32,
    }
}

/// The tokens that the first `n` lexemes give: every token but `Newline`.
pub open spec fn tokens_upto(uri: Seq<char>, lexemes: Seq<LexemeModel>, n: int) -> Seq<TokenModel>
    decreases n,
{
    if n <= 0 || n > lexemes.len() {
        seq![]
    } else {
        let prev = tokens_upto(uri, lexemes, n - 1);
        match lexemes[n - 1].token {
            Ok(k) => if k == TokenKind::Newline {
                prev
            } else {
                prev.push(TokenModel { token_type: k, source_loc: lexeme_loc(uri, lexemes, n - 1) })
            },
            Err(_) => prev,
        }
    }
}

/// The errors that the first `n` lexemes give: one for each stretch of text
/// that starts no token.
pub open spec fn errors_upto(uri: Seq<char>, lexemes: Seq<LexemeModel>, n: int) -> Seq<
    LexerErrorModel,
>
    decreases n,
{
    if n <= 0 || n > lexemes.len() {
        seq![]
    } else {
        let prev = errors_upto(uri, lexemes, n - 1);
        match lexemes[n - 1].token {
            Ok(_) => prev,
            Err(text) => prev.push(
                LexerErrorModel::UnknownToken {
                    culprit: text,
                    source_loc: lexeme_loc(uri, lexemes, n - 1),
                },
            ),
        }
    }
}

/// What lexing a document gives: the tokens and errors of the lexemes up to
/// the first whose span does not fit in a `u32`, and for that one, if any, a
/// `FileTooBig` error with the offending value and the line it stands on.
pub open spec fn lex_result(uri: Seq<char>, lexemes: Seq<LexemeModel>) -> (
    Seq<TokenModel>,
    Seq<LexerErrorModel>,
) {
    let k = first_unfit_from(lexemes, 0);
    let tokens = tokens_upto(uri, lexemes, k);
    let errors = errors_upto(uri, lexemes, k);
    if k < lexemes.len() {
        (
            tokens,
            errors.push(
                LexerErrorModel::FileTooBig {
                    size: span_overflow(lexemes[k]) as usize,
                    line_num: line_state(lexemes, k).0 as u32,
                },
            ),
        )
    } else {
        (tokens, errors)
    }
}

/// The number of `Newline` lexemes among the first `n`.
pub open spec fn newline_count(lexemes: Seq<LexemeModel>, n: int) -> nat
    decreases n,
{
    if n <= 0 || n > lexemes.len() {
        0
    } else {
        newline_count(lexemes, n - 1) + if lexemes[n - 1].token == Ok::<TokenKind, Seq<char>>(
            TokenKind::Newline,
        ) {
            1nat
        } else {
            0nat
        }
    }
}

/// A text whose first `u32::MAX` characters are all line breaks: its lines
/// cannot be numbered in a `u32`.
pub open spec fn line_count_overflows(s: Seq<char>) -> bool {
    &&& s.len() >= u32::MAX
    &&& forall|i: int| 0 <= i < u32::MAX ==> s[i] == '\n'
}

/// Whether a text opens with `u32::MAX` line breaks, so that its lines cannot
/// be numbered in a `u32`.
pub fn line_count_overflows_exec(text: &str) -> (overflows: bool)
    ensures
        overflows == line_count_overflows(text@),
{
    let chars = text_chars(text);
    let limit: usize = 4294967295;
    if chars.len() < limit {
        return false;
    }
    let mut i: usize = 0;
    while i < limit
        invariant
            limit == u32::MAX,
            i <= limit,
            chars@ == text@,
            chars@.len() >= limit,
            forall|j: int| 0 <= j < i ==> text@[j] == '\n',
        decreases limit - i,
    {
        if chars[i] != '\n' {
            return false;
        }
        i = i + 1;
    }
    true
}

/// The `count` characters of `s` from index `from` on are all line breaks.
pub open spec fn line_breaks_at(s: Seq<char>, from: int, count: int) -> bool {
    forall|j: int| from <= j < from + count ==> #[trigger] is_line_break_at(s, j)
}

/// Index `j` of `s` holds a line break.
pub open spec fn is_line_break_at(s: Seq<char>, j: int) -> bool {
    0 <= j < s.len() && s[j] == '\n'
}

/// The lines of the lexemes up to the first unfit one can be numbered in a `u32`.
pub open spec fn lines_fit(lexemes: Seq<LexemeModel>) -> bool {
    forall|n: int| 0 <= n <= first_unfit_from(lexemes, 0) ==> line_state(lexemes, n).0 <= u32::MAX
}

pub open spec fn token_models(v: Seq<Token>) -> Seq<TokenModel> {
    v.map_values(|t: Token| t@)
}

pub open spec fn lexer_error_models(v: Seq<LexerError>) -> Seq<LexerErrorModel> {
    v.map_values(|e: LexerError| e@)
}


pub proof fn lemma_line_state_counts(lexemes: Seq<LexemeModel>, n: int)
    requires
        0 <= n <= lexemes.len(),
    ensures
        line_state(lexemes, n).0 == 1 + newline_count(lexemes, n),
    decreases n,
{
    if n > 0 {
        lemma_line_state_counts(lexemes, n - 1);
    }
}

pub(crate) proof fn lemma_newline_count_cons(x: LexemeModel, rest: Seq<LexemeModel>, n: int)
    requires
        1 <= n <= rest.len() + 1,
    ensures
        newline_count(seq![x] + rest, n) == newline_count(rest, n - 1) + if x.token == Ok::<
            TokenKind,
            Seq<char>,
        >(TokenKind::Newline) {
            1nat
        } else {
            0nat
        },
    decreases n,
{
    let all = seq![x] + rest;
    assert(all[0] == x);
    if n > 1 {
        lemma_newline_count_cons(x, rest, n - 1);
        assert(all[n - 1] == rest[n - 2]);
    } else {
        assert(newline_count(all, 0) == 0);
        assert(newline_count(rest, 0) == 0);
    }
}

proof fn lemma_line_breaks_extend(s: Seq<char>, i: int, m: int)
    requires
        0 <= i < s.len(),
        s[i] == '\n',
        line_breaks_at(s, i + 1, m),
    ensures
        line_breaks_at(s, i, m + 1),
{
    assert forall|j: int| i <= j < i + (m + 1) implies #[trigger] is_line_break_at(s, j) by {
        if j > i {
            assert(is_line_break_at(s, j));
        }
    }
}

/// Every lexeme takes at least a byte, so the `Newline` lexemes among the
/// first `n` of those from character `i` on are no more than the bytes up to
/// the end of the last one; where they are as many, the text from `i` on
/// starts with that many line breaks.
proof fn lemma_newlines_bounded(s: Seq<char>, i: int)
    requires
        0 <= i <= s.len(),
    ensures
        forall|n: int|
            1 <= n <= lexemes_from(s, i).len() ==> {
                let c = #[trigger] newline_count(lexemes_from(s, i), n);
                let span = lexemes_from(s, i)[n - 1].end - utf8_len(s.take(i));
                &&& c <= span
                &&& c == span ==> line_breaks_at(s, i, c as int)
            },
    decreases s.len() - i,
{
    if i < s.len() {
        lemma_scan_at_bounded(s, i);
        let k = scan_at(s, i).1;
        lemma_newlines_bounded(s, i + k);
        crate::lexer::scanner::lemma_lexemes_from_ordered(s, i + k);
        lemma_utf8_len_take_step(s, i);
        lemma_utf8_len_take_bound(s, i + 1, i + k);
        let all = lexemes_from(s, i);
        let rest = lexemes_from(s, i + k);
        let b = utf8_len(s.take(i));
        let b2 = utf8_len(s.take(i + k));
        assert(b2 >= b + 1);
        assert forall|n: int| 1 <= n <= all.len() implies {
            let c = #[trigger] newline_count(all, n);
            let span = all[n - 1].end - b;
            &&& c <= span
            &&& c == span ==> line_breaks_at(s, i, c as int)
        } by {
            let c = newline_count(all, n);
            let span = all[n - 1].end - b;
            match scan_at(s, i).0 {
                Scan::Blank => {
                    assert(all == rest);
                    assert(newline_count(rest, n) <= rest[n - 1].end - b2);
                    assert(c < span);
                },
                Scan::Unknown => {
                    let x = LexemeModel { token: Err(s.subrange(i, i + k)), start: b, end: b2 };
                    assert(all == seq![x] + rest);
                    lemma_newline_count_cons(x, rest, n);
                    if n > 1 {
                        assert(all[n - 1] == rest[n - 2]);
                        assert(newline_count(rest, n - 1) <= rest[n - 2].end - b2);
                    }
                    assert(c < span);
                },
                Scan::Token(t) => {
                    let x = LexemeModel { token: Ok(t), start: b, end: b2 };
                    assert(all == seq![x] + rest);
                    lemma_newline_count_cons(x, rest, n);
                    if t == TokenKind::Newline {
                        assert(s[i] == '\n');
                        assert(k == 1);
                        assert(b2 == b + 1);
                        if n > 1 {
                            assert(all[n - 1] == rest[n - 2]);
                            let c2 = newline_count(rest, n - 1);
                            assert(c2 <= rest[n - 2].end - b2);
                            assert(c == c2 + 1);
                            assert(c <= span);
                            if c == span {
                                assert(line_breaks_at(s, i + 1, c2 as int));
                                lemma_line_breaks_extend(s, i, c2 as int);
                                assert(line_breaks_at(s, i, c as int));
                            }
                        } else {
                            assert(c == 1);
                            assert(span == 1);
                            assert(line_breaks_at(s, i, c as int));
                        }
                    } else {
                        assert(x.token != Ok::<TokenKind, Seq<char>>(TokenKind::Newline));
                        if n > 1 {
                            assert(all[n - 1] == rest[n - 2]);
                            assert(newline_count(rest, n - 1) <= rest[n - 2].end - b2);
                        }
                        assert(c < span);
                    }
                },
            }
        }
    }
}

/// Unless the text starts with `u32::MAX` line breaks, the lines up to the
/// first lexeme whose span does not fit can be numbered in a `u32`.
pub proof fn lemma_lines_fit(s: Seq<char>)
    requires
        !line_count_overflows(s),
    ensures
        lines_fit(lexemes(s)),
{
    let ls = lexemes(s);
    lemma_newlines_bounded(s, 0);
    assert(s.take(0) =~= Seq::<char>::empty());
    assert forall|n: int| 0 <= n <= first_unfit_from(ls, 0) implies line_state(ls, n).0
        <= u32::MAX by {
        lemma_first_unfit_at_least(ls, 0);
        lemma_line_state_counts(ls, n);
        if n >= 1 {
            lemma_first_unfit_fits(ls, 0, n - 1);
            assert(span_fits(ls[n - 1]));
            let c = newline_count(ls, n);
            if c == u32::MAX {
                assert(line_breaks_at(s, 0, c as int));
                let last = u32::MAX - 1;
                assert(is_line_break_at(s, last));
                assert(s.len() >= u32::MAX);
                assert forall|m: int| 0 <= m < u32::MAX implies s[m] == '\n' by {
                    assert(is_line_break_at(s, m));
                }
            }
        }
    }
}

pub proof fn lemma_first_unfit_fits(lexemes: Seq<LexemeModel>, i: int, k: int)
    requires
        0 <= i <= k < first_unfit_from(lexemes, i),
    ensures
        span_fits(lexemes[k]),
    decreases k - i,
{
    if i < k {
        lemma_first_unfit_fits(lexemes, i + 1, k);
    }
}

pub proof fn lemma_line_start_before(lexemes: Seq<LexemeModel>, n: int)
    requires
        ordered(lexemes),
        0 <= n <= lexemes.len(),
    ensures
        forall|j: int| n <= j < lexemes.len() ==> line_state(lexemes, n).1 <= #[trigger] lexemes[j].start,
    decreases n,
{
    if n > 0 {
        lemma_line_start_before(lexemes, n - 1);
        assert forall|j: int| n <= j < lexemes.len() implies line_state(lexemes, n).1
            <= #[trigger] lexemes[j].start by {
            assert(lexemes[n - 1].end <= lexemes[j].start);
        }
    }
}

pub proof fn lemma_first_unfit_skip(lexemes: Seq<LexemeModel>, i: int, n: int)
    requires
        0 <= i <= n <= lexemes.len(),
        forall|k: int| i <= k < n ==> span_fits(#[trigger] lexemes[k]),
    ensures
        first_unfit_from(lexemes, i) == first_unfit_from(lexemes, n),
    decreases n - i,
{
    if i < n {
        lemma_first_unfit_skip(lexemes, i + 1, n);
    }
}

pub proof fn lemma_first_unfit_at_least(lexemes: Seq<LexemeModel>, i: int)
    requires
        0 <= i <= lexemes.len(),
    ensures
        i <= first_unfit_from(lexemes, i) <= lexemes.len(),
    decreases lexemes.len() - i,
{
    if i < lexemes.len() {
        lemma_first_unfit_at_least(lexemes, i + 1);
    }
}

/// The length of a span: the number of offsets from its start up to its
/// end, none where the end comes before the start.
pub open spec fn span_len(span: std::ops::Range<usize>) -> int {
    if span.start <= span.end {
        span.end - span.start
    } else {
        0
    }
}

/// The span of a lexeme as `u32`s: its start, length and end, or the first
/// of these that does not fit.
fn as_u32s(span: std::ops::Range<usize>) -> (result: Result<(u32, u32, u32), usize>)
    ensures
        match result {
            Ok((start, len, end)) => {
                &&& span.start <= u32::MAX && span_len(span) <= u32::MAX && span.end <= u32::MAX
                &&& start == span.start && len == span_len(span) && end == span.end
            },
            Err(size) => {
                &&& !(span.start <= u32::MAX && span_len(span) <= u32::MAX && span.end <= u32::MAX)
                &&& size == if span.start > u32::MAX {
                    span.start as int
                } else if span_len(span) > u32::MAX {
                    span_len(span)
                } else {
                    span.end as int
                }
            },
        },
{
    let max = u32::MAX as usize;
    if span.start > max {
        return Err(span.start);
    }
    let len = if span.start <= span.end {
        span.end - span.start
    } else {
        0
    };
    if len > max {
        return Err(len);
    }
    if span.end > max {
        return Err(span.end);
    }
    Ok((span.start as u32, len as u32, span.end as u32))
}

/// Lexes an Organic document: its tokens, each with its place (byte offset,
/// line and column counted from 1, length in bytes), and an error for each
/// stretch of text that starts no token.  Line breaks are counted, not
/// returned.  Where a byte offset passes `u32::MAX` lexing stops with
/// `FileTooBig`.
pub fn lex(doc_loc: &DocLoc, doc_text: &str) -> (result: (Vec<Token>, Vec<LexerError>))
    requires
        !line_count_overflows(doc_text@),
    ensures
        token_models(result.0@) == lex_result(doc_loc.uri@, lexemes(doc_text@)).0,
        lexer_error_models(result.1@) == lex_result(doc_loc.uri@, lexemes(doc_text@)).1,
{
    let mut line_num: u32 = 1;
    let mut last_line_offset: u32 = 0;
    let mut errors: Vec<LexerError> = Vec::new();
    let mut token_sequence: Vec<Token> = Vec::new();
    let lexemes = scan(doc_text);
    let ghost ls = lexeme_models(lexemes@);
    let ghost uri = doc_loc.uri@;
    proof {
        lemma_lexemes_ordered(doc_text@);
        lemma_lines_fit(doc_text@);
    }
    let mut n: usize = 0;
    while n < lexemes.len()
        invariant
            n <= lexemes@.len(),
            ls == lexeme_models(lexemes@),
            ls == crate::lexer::scanner::lexemes(doc_text@),
            uri == doc_loc.uri@,
            ordered(ls),
            lines_fit(ls),
            forall|k: int| 0 <= k < n ==> span_fits(#[trigger] ls[k]),
            line_num == line_state(ls, n as int).0,
            last_line_offset == line_state(ls, n as int).1,
            token_models(token_sequence@) == tokens_upto(uri, ls, n as int),
            lexer_error_models(errors@) == errors_upto(uri, ls, n as int),
        decreases lexemes@.len() - n,
    {
        let lexeme = &lexemes[n];
        let ghost l = ls[n as int];
        assert(l == lexeme@);
        proof {
            lemma_first_unfit_skip(ls, 0, n as int);
        }
        match as_u32s(lexeme.start..lexeme.end) {
            Err(size) => {
                let ghost before = lexer_error_models(errors@);
                errors.push(LexerError::FileTooBig { size, line_num });
                assert(lexer_error_models(errors@) =~= before.push(lexer_error_models(errors@).last()));
                return (token_sequence, errors);
            },
            Ok((start, length, end)) => {
                proof {
                    lemma_line_start_before(ls, n as int);
                    lemma_first_unfit_skip(ls, 0, n as int + 1);
                    lemma_first_unfit_at_least(ls, n as int + 1);
                    assert(line_state(ls, n as int + 1).0 <= u32::MAX);
                }
                let column = 1 + start - last_line_offset;
                let source_loc = SourceLoc {
                    doc_loc: doc_loc.clone(),
                    pos: start,
                    line: line_num,
                    column,
                    length,
                };
                assert(source_loc@ == lexeme_loc(uri, ls, n as int));
                match &lexeme.result {
                    Ok(token_type) => {
                        match token_type {
                            TokenType::Newline => {
                                line_num = line_num + 1;
                                last_line_offset = end;
                            },
                            _ => {
                                let ghost before = token_models(token_sequence@);
                                token_sequence.push(
                                    Token { token_type: token_type.clone(), source_loc },
                                );
                                assert(token_models(token_sequence@) =~= before.push(
                                    token_models(token_sequence@).last(),
                                ));
                            },
                        }
                    },
                    Err(culprit) => {
                        let ghost before = lexer_error_models(errors@);
                        errors.push(
                            LexerError::UnknownToken { culprit: culprit.clone(), source_loc },
                        );
                        assert(lexer_error_models(errors@) =~= before.push(
                            lexer_error_models(errors@).last(),
                        ));
                    },
                }
            },
        }
        n = n + 1;
    }
    proof {
        lemma_first_unfit_skip(ls, 0, n as int);
    }
    (token_sequence, errors)
}

} // verus!
