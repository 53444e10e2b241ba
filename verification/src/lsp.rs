pub mod semantic_tokens;

use vstd::prelude::*;

use crate::errors::{
    as_diagnostic, diagnostic_message, diagnostic_range, error_is_placed, Diagnostic,
    DiagnosticSeverity, LexerErrorModel, LspError, LspErrorModel,
};
use crate::lexer::doc_loc::DocLoc;
use crate::lexer::placement::lemma_lex_places;
use crate::lexer::scanner::lexemes;
use crate::lexer::{lex, lex_result, lexer_error_models, line_count_overflows};

verus! {

/// Every error that lexing a document reports can be shown to the editor:
/// its places count lines and columns from 1.
pub proof fn lemma_lexer_errors_placed(uri: Seq<char>, text: Seq<char>)
    requires
        !line_count_overflows(text),
    ensures
        forall|k: int|
            0 <= k < lex_result(uri, lexemes(text)).1.len() ==> error_is_placed(
                LspErrorModel::Lexer(#[trigger] lex_result(uri, lexemes(text)).1[k]),
            ),
{
    lemma_lex_places(uri, text);
    let errors = lex_result(uri, lexemes(text)).1;
    assert forall|k: int| 0 <= k < errors.len() implies error_is_placed(
        LspErrorModel::Lexer(#[trigger] errors[k]),
    ) by {
        match errors[k] {
            LexerErrorModel::UnknownToken { .. } => {},
            LexerErrorModel::FileTooBig { .. } => {},
        }
    }
}

/// The diagnostics of a document: one for each error that lexing it
/// reports, in the same order.
pub fn lexer_diagnostics(doc_loc: &DocLoc, text: &str) -> (diagnostics: Vec<Diagnostic>)
    requires
        !line_count_overflows(text@),
    ensures
        diagnostics@.len() == lex_result(doc_loc.uri@, lexemes(text@)).1.len(),
        forall|k: int|
            0 <= k < diagnostics@.len() ==> {
                let error = LspErrorModel::Lexer(lex_result(doc_loc.uri@, lexemes(text@)).1[k]);
                &&& (#[trigger] diagnostics@[k]).range == diagnostic_range(error)
                &&& diagnostics@[k].severity == Some(DiagnosticSeverity::Error)
                &&& diagnostics@[k].message@ == diagnostic_message(error)
            },
{
    let (_tokens, errors) = lex(doc_loc, text);
    let ghost models = lexer_error_models(errors@);
    proof {
        lemma_lexer_errors_placed(doc_loc.uri@, text@);
    }
    let ghost all = errors@;
    assert(all.len() <= usize::MAX) by {
        assert(errors@.len() == errors.len());
    }
    let mut rest = errors;
    let mut diagnostics: Vec<Diagnostic> = Vec::new();
    let mut done: usize = 0;
    while rest.len() > 0
        invariant
            done <= all.len(),
            all.len() <= usize::MAX,
            rest@ == all.skip(done as int),
            models == lexer_error_models(all),
            models == lex_result(doc_loc.uri@, lexemes(text@)).1,
            forall|k: int| 0 <= k < models.len() ==> error_is_placed(
                LspErrorModel::Lexer(#[trigger] models[k]),
            ),
            diagnostics@.len() == done,
            forall|k: int|
                0 <= k < done ==> {
                    let error = LspErrorModel::Lexer(models[k]);
                    &&& (#[trigger] diagnostics@[k]).range == diagnostic_range(error)
                    &&& diagnostics@[k].severity == Some(DiagnosticSeverity::Error)
                    &&& diagnostics@[k].message@ == diagnostic_message(error)
                },
        decreases rest@.len(),
    {
        assert(done < all.len());
        let error = rest.remove(0);
        assert(error@ == models[done as int]);
        diagnostics.push(as_diagnostic(LspError::LspLexerError(error)));
        done = done + 1;
        assert(rest@ =~= all.skip(done as int));
    }
    diagnostics
}

} // verus!
