use vstd::prelude::*;

use crate::errors::LexerErrorModel;
use crate::lexer::scanner::{
    lemma_lexemes_from_no_whitespace, lemma_lexemes_ordered, lexemes, ordered, LexemeModel,
};
use crate::lexer::source_loc::SourceLocModel;
use crate::lexer::token::{TokenKind, TokenModel};
use crate::lexer::{
    errors_upto, first_unfit_from, lemma_first_unfit_at_least, lemma_first_unfit_fits,
    lemma_line_start_before, lemma_line_state_counts, lemma_lines_fit, lex_result, lexeme_loc,
    line_count_overflows, line_state, lines_fit, span_fits, tokens_upto,
};

verus! {

/// `a` ends before `b` starts: on an earlier line, or on the same line at a
/// column no later than `b`'s.
pub open spec fn loc_before(a: SourceLocModel, b: SourceLocModel) -> bool {
    a.line < b.line || (a.line == b.line && a.column + a.length <= b.column)
}

/// Tokens that come in the order of the text without overlapping.
pub open spec fn tokens_in_order(tokens: Seq<TokenModel>) -> bool {
    forall|a: int, b: int|
        0 <= a < b < tokens.len() ==> loc_before(
            #[trigger] tokens[a].source_loc,
            #[trigger] tokens[b].source_loc,
        )
}

/// `loc` ends no later than the lexemes before lexeme `n`.
spec fn placed_before(loc: SourceLocModel, lexemes: Seq<LexemeModel>, n: int) -> bool {
    let (line, line_start) = line_state(lexemes, n);
    let reached = if n == 0 {
        0
    } else {
        lexemes[n - 1].end
    };
    loc.line < line || (loc.line == line && line_start + loc.column - 1 + loc.length <= reached)
}

proof fn lemma_loc_facts(uri: Seq<char>, lexemes: Seq<LexemeModel>, n: int)
    requires
        ordered(lexemes),
        lines_fit(lexemes),
        0 <= n < first_unfit_from(lexemes, 0),
    ensures
        ({
            let loc = lexeme_loc(uri, lexemes, n);
            let (line, line_start) = line_state(lexemes, n);
            &&& loc.wf()
            &&& loc.line == line
            &&& line_start + loc.column - 1 == lexemes[n].start
            &&& loc.length == lexemes[n].end - lexemes[n].start
            &&& line_start <= lexemes[n].start
        }),
{
    lemma_first_unfit_at_least(lexemes, 0);
    lemma_first_unfit_fits(lexemes, 0, n);
    lemma_line_start_before(lexemes, n);
    lemma_line_state_counts(lexemes, n);
    assert(line_state(lexemes, n).0 <= u32::MAX);
}

proof fn lemma_tokens_placed(uri: Seq<char>, lexemes: Seq<LexemeModel>, n: int)
    requires
        ordered(lexemes),
        lines_fit(lexemes),
        0 <= n <= first_unfit_from(lexemes, 0),
        forall|k: int|
            0 <= k < lexemes.len() ==> (#[trigger] lexemes[k]).token != Ok::<TokenKind, Seq<char>>(
                TokenKind::Whitespace,
            ),
    ensures
        ({
            let ts = tokens_upto(uri, lexemes, n);
            &&& forall|k: int|
                0 <= k < ts.len() ==> {
                    &&& (#[trigger] ts[k]).source_loc.wf()
                    &&& ts[k].token_type != TokenKind::Newline
                    &&& ts[k].token_type != TokenKind::Whitespace
                    &&& placed_before(ts[k].source_loc, lexemes, n)
                }
            &&& tokens_in_order(ts)
        }),
    decreases n,
{
    lemma_first_unfit_at_least(lexemes, 0);
    if n > 0 {
        let m = n - 1;
        lemma_tokens_placed(uri, lexemes, m);
        lemma_loc_facts(uri, lexemes, m);
        let prev = tokens_upto(uri, lexemes, m);
        let ts = tokens_upto(uri, lexemes, n);
        let l = lexemes[m];
        let (line, line_start) = line_state(lexemes, m);
        let reached = if m == 0 {
            0
        } else {
            lexemes[m - 1].end
        };
        assert(reached <= l.start) by {
            if m > 0 {
                assert(lexemes[m - 1].end <= lexemes[m].start);
            }
        }
        let loc = lexeme_loc(uri, lexemes, m);
        match l.token {
            Ok(k) => {
                if k == TokenKind::Newline {
                    assert(ts == prev);
                    assert forall|j: int| 0 <= j < ts.len() implies placed_before(
                        (#[trigger] ts[j]).source_loc,
                        lexemes,
                        n,
                    ) by {
                        assert(placed_before(prev[j].source_loc, lexemes, m));
                    }
                } else {
                    let new = TokenModel { token_type: k, source_loc: loc };
                    assert(ts == prev.push(new));
                    assert(line_state(lexemes, n) == line_state(lexemes, m));
                    assert forall|j: int| 0 <= j < ts.len() implies {
                        &&& (#[trigger] ts[j]).source_loc.wf()
                        &&& ts[j].token_type != TokenKind::Newline
                        &&& ts[j].token_type != TokenKind::Whitespace
                        &&& placed_before(ts[j].source_loc, lexemes, n)
                    } by {
                        if j < prev.len() {
                            assert(ts[j] == prev[j]);
                            assert(placed_before(prev[j].source_loc, lexemes, m));
                        }
                    }
                    assert forall|a: int, b: int| 0 <= a < b < ts.len() implies loc_before(
                        #[trigger] ts[a].source_loc,
                        #[trigger] ts[b].source_loc,
                    ) by {
                        assert(ts[a] == prev[a]);
                        if b < prev.len() {
                            assert(ts[b] == prev[b]);
                            assert(loc_before(prev[a].source_loc, prev[b].source_loc));
                        } else {
                            assert(placed_before(prev[a].source_loc, lexemes, m));
                        }
                    }
                }
            },
            Err(_) => {
                assert(ts == prev);
                assert(line_state(lexemes, n) == line_state(lexemes, m));
                assert forall|j: int| 0 <= j < ts.len() implies placed_before(
                    (#[trigger] ts[j]).source_loc,
                    lexemes,
                    n,
                ) by {
                    assert(placed_before(prev[j].source_loc, lexemes, m));
                }
            },
        }
    }
}

proof fn lemma_errors_placed(uri: Seq<char>, lexemes: Seq<LexemeModel>, n: int)
    requires
        ordered(lexemes),
        lines_fit(lexemes),
        0 <= n <= first_unfit_from(lexemes, 0),
    ensures
        forall|k: int|
            0 <= k < errors_upto(uri, lexemes, n).len() ==> ((#[trigger] errors_upto(
                uri,
                lexemes,
                n,
            )[k]) matches LexerErrorModel::UnknownToken { source_loc, .. } && source_loc.wf()),
    decreases n,
{
    lemma_first_unfit_at_least(lexemes, 0);
    if n > 0 {
        let m = n - 1;
        lemma_errors_placed(uri, lexemes, m);
        lemma_loc_facts(uri, lexemes, m);
        let prev = errors_upto(uri, lexemes, m);
        let es = errors_upto(uri, lexemes, n);
        assert forall|k: int| 0 <= k < es.len() implies ((#[trigger] es[k]) matches LexerErrorModel::UnknownToken {
            source_loc,
            ..
        } && source_loc.wf()) by {
            if k < prev.len() {
                assert(es[k] == prev[k]);
            }
        }
    }
}

/// What the lexer reports is well placed: it hands out no line break and no
/// blank as a token; every place it reports counts lines and columns from 1
/// and has the column of its last byte fit in a `u32`; and its tokens come
/// in the order of the text without overlapping.
pub proof fn lemma_lex_places(uri: Seq<char>, s: Seq<char>)
    requires
        !line_count_overflows(s),
    ensures
        ({
            let (tokens, errors) = lex_result(uri, lexemes(s));
            &&& forall|k: int|
                0 <= k < tokens.len() ==> {
                    &&& (#[trigger] tokens[k]).source_loc.wf()
                    &&& tokens[k].token_type != TokenKind::Newline
                    &&& tokens[k].token_type != TokenKind::Whitespace
                }
            &&& tokens_in_order(tokens)
            &&& forall|k: int|
                0 <= k < errors.len() ==> match #[trigger] errors[k] {
                    LexerErrorModel::UnknownToken { source_loc, .. } => source_loc.wf(),
                    LexerErrorModel::FileTooBig { line_num, .. } => line_num >= 1,
                }
        }),
{
    let ls = lexemes(s);
    lemma_lexemes_ordered(s);
    lemma_lines_fit(s);
    lemma_lexemes_from_no_whitespace(s, 0);
    lemma_first_unfit_at_least(ls, 0);
    let k = first_unfit_from(ls, 0);
    lemma_tokens_placed(uri, ls, k);
    lemma_errors_placed(uri, ls, k);
    lemma_line_state_counts(ls, k);
    let (tokens, errors) = lex_result(uri, ls);
    let es = errors_upto(uri, ls, k);
    assert forall|j: int| 0 <= j < errors.len() implies match #[trigger] errors[j] {
        LexerErrorModel::UnknownToken { source_loc, .. } => source_loc.wf(),
        LexerErrorModel::FileTooBig { line_num, .. } => line_num >= 1,
    } by {
        if j < es.len() {
            assert(errors[j] == es[j]);
        }
    }
}

} // verus!
