use vstd::prelude::*;

use crate::lexer::scanner::{
    char_width, is_blank, is_digit, is_letter, is_name_char, lemma_scan_at_bounded, lexemes,
    lexemes_from, name_run, scan_at, utf8_len, LexemeModel,
};
use crate::lexer::source_loc::SourceLocModel;
use crate::lexer::token::{TokenKind, TokenModel};
use crate::lexer::{
    errors_upto, first_unfit_from, lex_result, lexeme_loc, line_state, span_fits, tokens_upto,
};

verus! {

/// An ASCII letter or `_`: what a name starts with.
pub open spec fn starts_word(c: char) -> bool {
    let u = c as u32;
    (65 <= u && u <= 90) || (97 <= u && u <= 122) || u == 95
}

/// An ASCII letter, digit, `_` or `-`: what a name goes on with.
pub open spec fn continues_word(c: char) -> bool {
    let u = c as u32;
    starts_word(c) || (48 <= u && u <= 57) || c == '-'
}

/// A word: a letter or `_`, then any letters, digits, `_` and `-`, such as
/// a note name (`c4`, `as5`, `gf0`) or a function name (`all-pass`).
pub open spec fn is_word(w: Seq<char>) -> bool {
    &&& w.len() >= 1
    &&& starts_word(w[0])
    &&& forall|i: int| 1 <= i < w.len() ==> continues_word(#[trigger] w[i])
}

proof fn lemma_name_run_to_end(w: Seq<char>, i: int)
    requires
        is_word(w),
        1 <= i <= w.len(),
    ensures
        name_run(w, i) == w.len() - i,
    decreases w.len() - i,
{
    if i < w.len() {
        assert(continues_word(w[i]));
        assert(is_name_char(w[i]));
        lemma_name_run_to_end(w, i + 1);
    }
}

proof fn lemma_ascii_width(w: Seq<char>)
    requires
        forall|i: int| 0 <= i < w.len() ==> continues_word(#[trigger] w[i]),
    ensures
        utf8_len(w) == w.len(),
    decreases w.len(),
{
    if w.len() > 0 {
        assert(continues_word(w[0]));
        assert(char_width(w[0]) == 1);
        assert forall|i: int| 0 <= i < w.drop_first().len() implies continues_word(
            #[trigger] w.drop_first()[i],
        ) by {
            assert(w.drop_first()[i] == w[i + 1]);
        }
        lemma_ascii_width(w.drop_first());
    }
}

/// A name runs on through every letter, digit, `_` and `-` that follows it:
/// lexing a word (other than the keyword `include`) gives exactly one
/// identifier, whose text is the whole word, at the start of the first line,
/// with the word's length, and no error.
pub proof fn lemma_word_is_one_name(uri: Seq<char>, w: Seq<char>)
    requires
        is_word(w),
        w != seq!['i', 'n', 'c', 'l', 'u', 'd', 'e'],
        w.len() <= u32::MAX,
    ensures
        lex_result(uri, lexemes(w)) == (
            seq![
                TokenModel {
                    token_type: TokenKind::Identifier(w),
                    source_loc: SourceLocModel {
                        uri,
                        pos: 0,
                        line: 1,
                        column: 1,
                        length: w.len() as u32,
                    },
                },
            ],
            Seq::<crate::errors::LexerErrorModel>::empty(),
        ),
{
    assert(is_letter(w[0]));
    assert(!is_blank(w[0]));
    lemma_scan_at_bounded(w, 0);
    if w.len() > 1 {
        lemma_name_run_to_end(w, 1);
    }
    assert(name_run(w, 1) == w.len() - 1);
    assert(w.subrange(0, w.len() as int) =~= w);
    assert(scan_at(w, 0).1 == w.len());
    assert forall|i: int| 0 <= i < w.len() implies continues_word(#[trigger] w[i]) by {
        if i == 0 {
            assert(starts_word(w[0]));
        }
    }
    lemma_ascii_width(w);
    assert(w.take(w.len() as int) =~= w);
    assert(w.take(0) =~= Seq::<char>::empty());
    assert(utf8_len(w.take(0)) == 0);
    assert(lexemes_from(w, w.len() as int) =~= Seq::<LexemeModel>::empty());
    let l = LexemeModel { token: Ok(TokenKind::Identifier(w)), start: 0, end: w.len() };
    let ls = lexemes(w);
    assert(ls =~= seq![l]);
    assert(span_fits(l));
    assert(first_unfit_from(ls, 1) == 1);
    assert(first_unfit_from(ls, 0) == 1);
    assert(tokens_upto(uri, ls, 0) =~= Seq::<TokenModel>::empty());
    assert(errors_upto(uri, ls, 0) =~= Seq::<crate::errors::LexerErrorModel>::empty());
    assert(line_state(ls, 0) == (1nat, 0nat));
    assert(lexeme_loc(uri, ls, 0) == SourceLocModel {
        uri,
        pos: 0,
        line: 1,
        column: 1,
        length: w.len() as u32,
    });
    assert(tokens_upto(uri, ls, 1) =~= seq![
        TokenModel { token_type: TokenKind::Identifier(w), source_loc: lexeme_loc(uri, ls, 0) },
    ]);
    assert(errors_upto(uri, ls, 1) =~= Seq::<crate::errors::LexerErrorModel>::empty());
}

} // verus!
