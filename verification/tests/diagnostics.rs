use organic_lsp::analyzer::function::Function;
use organic_lsp::analyzer::organic_type::OrganicType;
use organic_lsp::errors::{
    as_diagnostic, as_range, as_range_mini, AnalyzerError, AnalyzerErrorType, DiagnosticSeverity, LexerError,
    LspError, ParserError, Position, Range,
};
use organic_lsp::lexer::doc_loc::DocLoc;
use organic_lsp::lexer::source_loc::{MiniLoc, SourceLoc};
use organic_lsp::lexer::token::{Token, TokenType};
use organic_lsp::lsp::lexer_diagnostics;
use organic_lsp::parser::ast::Symbol;

fn doc() -> DocLoc {
    DocLoc::new("file:///song.organic".to_string())
}

fn loc(line: u32, column: u32, length: u32) -> SourceLoc {
    SourceLoc { doc_loc: doc(), pos: 0, line, column, length }
}

fn range(line: u32, start: u32, end: u32) -> Range {
    Range { start: Position { line, character: start }, end: Position { line, character: end } }
}

fn name_token(name: &str, line: u32, column: u32) -> Token {
    Token { token_type: TokenType::Identifier(name.to_string()), source_loc: loc(line, column, name.len() as u32) }
}

fn analyzer_error(typ: AnalyzerErrorType, offender: Token) -> LspError {
    LspError::LspAnalyzerError(AnalyzerError { typ, offender })
}

#[test]
fn unknown_tokens_are_reported_where_they_stand() {
    let diagnostics = lexer_diagnostics(&doc(), "sample(file: 'drums_loop', volume: 1)");
    assert_eq!(diagnostics.len(), 2);
    assert_eq!(diagnostics[0].range, range(0, 13, 14));
    assert_eq!(diagnostics[1].range, range(0, 24, 25));
    for d in &diagnostics {
        assert_eq!(d.severity, Some(DiagnosticSeverity::Error));
        assert_eq!(d.message, "Unknown token: '");
    }
}

#[test]
fn a_clean_document_has_no_diagnostics() {
    assert!(lexer_diagnostics(&doc(), "sine(frequency: 440, volume: 0.5)\n").is_empty());
}

#[test]
fn ranges_count_from_zero() {
    assert_eq!(as_range(&loc(3, 7, 4)), range(2, 6, 10));
    assert_eq!(as_range_mini(MiniLoc { line: 1, column: 1 }), range(0, 0, 1));
}

#[test]
fn file_too_big_covers_the_lines_read() {
    let d = as_diagnostic(LspError::LspLexerError(LexerError::FileTooBig { size: 4294967296, line_num: 12 }));
    assert_eq!(d.range, Range { start: Position { line: 0, character: 0 }, end: Position { line: 11, character: 0 } });
    assert_eq!(
        d.message,
        "This file is too large!  organic-lsp can only handle values up to 4294967295 characters in size, but this file has at least 4294967296 characters"
    );
}

#[test]
fn unknown_token_message_names_the_culprit() {
    let d = as_diagnostic(LspError::LspLexerError(LexerError::UnknownToken {
        culprit: "$".to_string(),
        source_loc: loc(2, 5, 1),
    }));
    assert_eq!(d.range, range(1, 4, 5));
    assert_eq!(d.message, "Unknown token: $");
}

#[test]
fn parser_error_messages() {
    let token = Token { token_type: TokenType::Comma, source_loc: loc(1, 4, 1) };
    let d = as_diagnostic(LspError::LspParserError(ParserError::ExtraToken { token }));
    assert_eq!(d.range, range(0, 3, 4));
    assert_eq!(d.message, "Token found after EOF: Comma");

    let location = MiniLoc { line: 2, column: 3 };
    let d = as_diagnostic(LspError::LspParserError(ParserError::FictionalToken { location }));
    assert_eq!(d.range, range(1, 2, 3));
    assert_eq!(d.message, format!("Unparseable token type at location: {location:?}"));
    assert_eq!(d.message, "Unparseable token type at location: MiniLoc { line: 2, column: 3 }");

    let expected = vec!["\")\"".to_string(), "\",\"".to_string()];
    let d = as_diagnostic(LspError::LspParserError(ParserError::UnexpectedEOF {
        location,
        expected: expected.clone(),
    }));
    assert_eq!(d.range, range(1, 2, 3));
    assert_eq!(d.message, format!("Unexpected EOF at location {location:?}\nExpected: ${expected:?}"));

    let token = name_token("oops", 4, 2);
    let shown = format!("{token:?}");
    let d = as_diagnostic(LspError::LspParserError(ParserError::WrongToken { token, expected: expected.clone() }));
    assert_eq!(d.range, range(3, 1, 5));
    assert_eq!(d.message, format!("Wrong token for this context: {shown}\nExpected: ${expected:?}"));
}

#[test]
fn analyzer_error_messages() {
    let offender = name_token("foo", 1, 1);
    let fn_name = Symbol { name: "foo".to_string(), token: offender.clone() };
    let d = as_diagnostic(analyzer_error(AnalyzerErrorType::ArityMismatch { fn_name, expected: 2, got: 10 }, offender.clone()));
    assert_eq!(d.range, range(0, 0, 3));
    assert_eq!(d.message, "Function `foo` takes 2 arguments, but got 10.");

    let d = as_diagnostic(analyzer_error(AnalyzerErrorType::BadInternalState, offender.clone()));
    assert_eq!(d.message, "Fatal internal error on `Identifier(\"foo\")`");
    let d = as_diagnostic(analyzer_error(AnalyzerErrorType::DuplicateVar, offender.clone()));
    assert_eq!(d.message, "Duplicate variable: Identifier(\"foo\")");
    let d = as_diagnostic(analyzer_error(AnalyzerErrorType::NoSuchFn, offender.clone()));
    assert_eq!(d.message, "No such function: Identifier(\"foo\")");
    let d = as_diagnostic(analyzer_error(AnalyzerErrorType::NoSuchVariable, offender.clone()));
    assert_eq!(d.message, "No such variable: Identifier(\"foo\")");
    let d = as_diagnostic(analyzer_error(AnalyzerErrorType::VarCannotInitInTermsOfSelf, offender.clone()));
    assert_eq!(d.message, "`Identifier(\"foo\")` cannot be defined in terms of itself");

    let expected = OrganicType::Function(Box::new(Function { params: Vec::new(), return_type: OrganicType::Unknown }));
    let shown = format!("{expected:?}");
    let d = as_diagnostic(analyzer_error(
        AnalyzerErrorType::TypeMismatch { expected, got: OrganicType::Number },
        offender,
    ));
    assert_eq!(d.range, range(0, 0, 3));
    assert_eq!(d.severity, Some(DiagnosticSeverity::Error));
    assert_eq!(
        d.message,
        format!("Could not match expected type `{shown}` with actual type `Number`, regarding value `Identifier(\"foo\")`.")
    );
}
