pub mod actions;
pub mod ast;

use vstd::prelude::*;

use crate::errors::{LexerError, LexerErrorModel, LspError, LspErrorModel, ParserError};
use crate::lexer::doc_loc::DocLoc;
use crate::lexer::scanner::lexemes;
use crate::lexer::source_loc::{minis_of, MiniLoc};
use crate::lexer::token::{Token, TokenModel};
use crate::lexer::{lex, lex_result, lexer_error_models, line_count_overflows};
use crate::parser::ast::Statement;

verus! {

/// How the grammar's parser fails: the error of the generated parser, whose
/// locations are lines and columns and whose tokens are the lexer's, each
/// between its start and end.
#[derive(Debug)]
pub enum GrammarError {
    /// A place where no token could be read.
    InvalidToken { location: MiniLoc },
    /// The tokens ended where one of `expected` was needed.
    UnrecognizedEof { location: MiniLoc, expected: Vec<String> },
    /// A token stood where one of `expected` was needed.
    UnrecognizedToken { token: (MiniLoc, Token, MiniLoc), expected: Vec<String> },
    /// A token followed a complete statement.
    ExtraToken { token: (MiniLoc, Token, MiniLoc) },
    /// An error raised by the grammar's own actions.
    User { error: ParserError },
}

/// The parser error that a grammar error is reported as.
pub open spec fn parser_error_of(err: GrammarError) -> ParserError {
    match err {
        GrammarError::InvalidToken { location } => ParserError::FictionalToken { location },
        GrammarError::UnrecognizedEof { location, expected } => ParserError::UnexpectedEOF {
            location,
            expected,
        },
        GrammarError::UnrecognizedToken { token, expected } => ParserError::WrongToken {
            token: token.1,
            expected,
        },
        GrammarError::ExtraToken { token } => ParserError::ExtraToken { token: token.1 },
        GrammarError::User { error } => error,
    }
}

/// Reports a grammar error as a parser error.
pub fn as_parser_error(err: GrammarError) -> (error: ParserError)
    ensures
        error == parser_error_of(err),
{
    match err {
        GrammarError::InvalidToken { location } => ParserError::FictionalToken { location },
        GrammarError::UnrecognizedToken { token: (_start, token, _end), expected } =>
            ParserError::WrongToken { token, expected },
        GrammarError::UnrecognizedEof { location, expected } => ParserError::UnexpectedEOF {
            location,
            expected,
        },
        GrammarError::User { error } => error,
        GrammarError::ExtraToken { token: (_start, token, _end) } => ParserError::ExtraToken {
            token,
        },
    }
}

/// A token between the places where it starts and ends, as the parser
/// takes it.
pub open spec fn triple_of(token: Token) -> (MiniLoc, Token, MiniLoc) {
    (minis_of(token.source_loc@).0, token, minis_of(token.source_loc@).1)
}

/// The tokens, each between the places where it starts and ends.
pub fn token_triples(tokens: Vec<Token>) -> (triples: Vec<(MiniLoc, Token, MiniLoc)>)
    ensures
        triples@ == tokens@.map_values(|t: Token| triple_of(t)),
{
    let ghost all = tokens@;
    let mut rest = tokens;
    let mut triples: Vec<(MiniLoc, Token, MiniLoc)> = Vec::new();
    while rest.len() > 0
        invariant
            triples@.len() + rest@.len() == all.len(),
            triples@ == all.take(triples@.len() as int).map_values(|t: Token| triple_of(t)),
            rest@ == all.skip(triples@.len() as int),
        decreases rest@.len(),
    {
        let ghost done = triples@.len() as int;
        let token = rest.remove(0);
        let (start, end) = token.source_loc.as_minis();
        triples.push((start, token, end));
        assert(all.take(done + 1) =~= all.take(done).push(all[done]));
        assert(triples@ =~= all.take(done + 1).map_values(|t: Token| triple_of(t)));
        assert(rest@ =~= all.skip(done + 1));
    }
    assert(all.take(all.len() as int) =~= all);
    triples
}

/// The statements that a parse gives: the statement parsed, or none.
pub open spec fn parsed_statements(parsed: Result<Statement, GrammarError>) -> Seq<Statement> {
    match parsed {
        Ok(statement) => seq![statement],
        Err(_) => Seq::empty(),
    }
}

/// The errors reported on a document: the parser's error first, if the parse
/// failed, then the lexer's errors in order.
pub open spec fn reported_errors(
    lexer_errors: Seq<LexerErrorModel>,
    parsed: Result<Statement, GrammarError>,
) -> Seq<LspErrorModel> {
    let from_lexer = lexer_errors.map_values(|e: LexerErrorModel| LspErrorModel::Lexer(e));
    match parsed {
        Ok(_) => from_lexer,
        Err(err) => seq![LspErrorModel::Parser(parser_error_of(err)@)] + from_lexer,
    }
}

/// The models of some errors.
pub open spec fn lsp_error_models(errors: Seq<LspError>) -> Seq<LspErrorModel> {
    errors.map_values(|e: LspError| e@)
}

/// The lexer's errors are always reported: whether or not the parse
/// succeeds, the errors of a document end with all of the lexer's errors in
/// their order; before them stands the parser's error if the parse failed,
/// and nothing if it succeeded.
pub proof fn lemma_lexer_errors_reported(
    lexer_errors: Seq<LexerErrorModel>,
    parsed: Result<Statement, GrammarError>,
)
    ensures
        ({
            let reported = reported_errors(lexer_errors, parsed);
            let before = reported.len() - lexer_errors.len();
            &&& before == if parsed is Ok {
                0int
            } else {
                1int
            }
            &&& forall|i: int|
                0 <= i < lexer_errors.len() ==> #[trigger] reported[before + i]
                    == LspErrorModel::Lexer(lexer_errors[i])
            &&& parsed matches Err(err) ==> reported[0] == LspErrorModel::Parser(
                parser_error_of(err)@,
            )
        }),
{
    let reported = reported_errors(lexer_errors, parsed);
    let from_lexer = lexer_errors.map_values(|e: LexerErrorModel| LspErrorModel::Lexer(e));
    if let Err(err) = parsed {
        assert(reported == seq![LspErrorModel::Parser(parser_error_of(err)@)] + from_lexer);
        assert forall|i: int| 0 <= i < lexer_errors.len() implies #[trigger] reported[1 + i]
            == LspErrorModel::Lexer(lexer_errors[i]) by {
            assert(reported[1 + i] == from_lexer[i]);
        }
    }
}

/// Puts together what lexing and parsing a document gave: the statements,
/// and the errors (the parser's first, then the lexer's).
pub fn gather(lexer_errors: Vec<LexerError>, parsed: Result<Statement, GrammarError>) -> (out: (
    Vec<Statement>,
    Vec<LspError>,
))
    ensures
        out.0@ == parsed_statements(parsed),
        lsp_error_models(out.1@) == reported_errors(lexer_error_models(lexer_errors@), parsed),
{
    let ghost lexer_models = lexer_error_models(lexer_errors@);
    let ghost parsed_copy = parsed;
    let mut errors: Vec<LspError> = Vec::new();
    let mut statements: Vec<Statement> = Vec::new();
    match parsed {
        Ok(statement) => statements.push(statement),
        Err(err) => errors.push(LspError::LspParserError(as_parser_error(err))),
    }
    let ghost first = lsp_error_models(errors@);
    let ghost all = lexer_errors@;
    assert(all.len() <= usize::MAX) by {
        assert(lexer_errors@.len() == lexer_errors.len());
    }
    let mut rest = lexer_errors;
    let mut done: usize = 0;
    while rest.len() > 0
        invariant
            done <= all.len(),
            all.len() <= usize::MAX,
            rest@ == all.skip(done as int),
            lsp_error_models(errors@) == first + lexer_error_models(all.take(done as int)).map_values(
                |e: LexerErrorModel| LspErrorModel::Lexer(e),
            ),
        decreases rest@.len(),
    {
        assert(done < all.len());
        let ghost before = errors@;
        let error = rest.remove(0);
        assert(error == all[done as int]);
        errors.push(LspError::LspLexerError(error));
        assert(all.take(done + 1) =~= all.take(done as int).push(all[done as int]));
        let ghost done_models = lexer_error_models(all.take(done as int));
        assert(lexer_error_models(all.take(done + 1)) =~= done_models.push(all[done as int]@));
        assert(done_models.push(all[done as int]@).map_values(|e: LexerErrorModel| LspErrorModel::Lexer(e))
            =~= done_models.map_values(|e: LexerErrorModel| LspErrorModel::Lexer(e)).push(
            LspErrorModel::Lexer(all[done as int]@),
        ));
        assert(lsp_error_models(errors@) =~= lsp_error_models(before).push(
            LspErrorModel::Lexer(all[done as int]@),
        ));
        assert(lsp_error_models(errors@) =~= first + lexer_error_models(all.take(done + 1)).map_values(
            |e: LexerErrorModel| LspErrorModel::Lexer(e),
        ));
        done = done + 1;
        assert(rest@ =~= all.skip(done as int));
    }
    assert(all.take(done as int) =~= all);
    assert(statements@ =~= parsed_statements(parsed_copy));
    assert(lsp_error_models(errors@) =~= reported_errors(lexer_models, parsed_copy));
    (statements, errors)
}

/// Lexes a document, hands its tokens to the grammar's parser `parse`, and
/// gathers the statement and the errors.
pub fn analyze<P>(doc_loc: &DocLoc, doc_text: &str, parse: P) -> (out: (
    Vec<Statement>,
    Vec<LspError>,
)) where P: Fn(Vec<(MiniLoc, Token, MiniLoc)>) -> Result<Statement, GrammarError>
    requires
        !line_count_overflows(doc_text@),
        forall|triples: Vec<(MiniLoc, Token, MiniLoc)>| #[trigger] call_requires(parse, (triples,)),
    ensures
        exists|triples: Vec<(MiniLoc, Token, MiniLoc)>, parsed: Result<Statement, GrammarError>|
            {
                &&& call_ensures(parse, (triples,), parsed)
                &&& triples@.map_values(|x: (MiniLoc, Token, MiniLoc)| x.1@) == lex_result(
                    doc_loc.uri@,
                    lexemes(doc_text@),
                ).0
                &&& forall|i: int|
                    0 <= i < triples@.len() ==> #[trigger] triples@[i] == triple_of(triples@[i].1)
                &&& out.0@ == parsed_statements(parsed)
                &&& lsp_error_models(out.1@) == reported_errors(
                    lex_result(doc_loc.uri@, lexemes(doc_text@)).1,
                    parsed,
                )
            },
{
    let (tokens, lexer_errors) = lex(doc_loc, doc_text);
    let ghost token_seq = tokens@;
    let triples = token_triples(tokens);
    let ghost triples_copy = triples;
    let parsed = parse(triples);
    let ghost parsed_copy = parsed;
    let out = gather(lexer_errors, parsed);
    assert(triples_copy@.map_values(|x: (MiniLoc, Token, MiniLoc)| x.1@) =~= token_seq.map_values(
        |t: Token| t@,
    ));
    assert(call_ensures(parse, (triples_copy,), parsed_copy));
    out
}

} // verus!
