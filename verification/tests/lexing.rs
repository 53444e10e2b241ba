use organic_lsp::errors::LexerError;
use organic_lsp::lexer::doc_loc::DocLoc;
use organic_lsp::lexer::{lex, line_count_overflows_exec};
use organic_lsp::lexer::source_loc::SourceLoc;
use organic_lsp::lexer::token::{Token, TokenType};

fn doc() -> DocLoc {
    DocLoc::new("file:///song.organic".to_string())
}

fn loc(pos: u32, line: u32, column: u32, length: u32) -> SourceLoc {
    SourceLoc { doc_loc: doc(), pos, line, column, length }
}

fn token(token_type: TokenType, pos: u32, line: u32, column: u32, length: u32) -> Token {
    Token { token_type, source_loc: loc(pos, line, column, length) }
}

fn ident(name: &str) -> TokenType {
    TokenType::Identifier(name.to_string())
}

#[test]
fn lex_reads_a_call() {
    let (tokens, errors) = lex(&doc(), "sine(frequency: 440)");
    assert!(errors.is_empty());
    assert_eq!(
        tokens,
        vec![
            token(ident("sine"), 0, 1, 1, 4),
            token(TokenType::LeftParen, 4, 1, 5, 1),
            token(ident("frequency"), 5, 1, 6, 9),
            token(TokenType::Colon, 14, 1, 15, 1),
            token(TokenType::Number("440".to_string()), 16, 1, 17, 3),
            token(TokenType::RightParen, 19, 1, 20, 1),
        ]
    );
}

#[test]
fn lex_counts_lines_and_columns() {
    let (tokens, errors) = lex(&doc(), "a\n  b\n\nc");
    assert!(errors.is_empty());
    assert_eq!(
        tokens,
        vec![token(ident("a"), 0, 1, 1, 1), token(ident("b"), 4, 2, 3, 1), token(ident("c"), 7, 4, 1, 1)]
    );
}

#[test]
fn lex_reports_unknown_characters() {
    let (tokens, errors) = lex(&doc(), "x ' y");
    assert_eq!(tokens, vec![token(ident("x"), 0, 1, 1, 1), token(ident("y"), 4, 1, 5, 1)]);
    assert_eq!(errors.len(), 1);
    match &errors[0] {
        LexerError::UnknownToken { culprit, source_loc } => {
            assert_eq!(culprit, "'");
            assert_eq!(*source_loc, loc(2, 1, 3, 1));
        },
        other => panic!("unexpected error {other:?}"),
    }
}

#[test]
fn lex_takes_keyword_operators_numbers_and_strings() {
    let (tokens, errors) = lex(&doc(), "include <= >= < > = 3.25 \"hi there\" - * / +");
    assert!(errors.is_empty());
    let types: Vec<TokenType> = tokens.into_iter().map(|t| t.token_type).collect();
    assert_eq!(
        types,
        vec![
            TokenType::Include,
            TokenType::LessThanEquals,
            TokenType::GreaterThanEquals,
            TokenType::LessThan,
            TokenType::GreaterThan,
            TokenType::Equals,
            TokenType::Number("3.25".to_string()),
            TokenType::String("hi there".to_string()),
            TokenType::Minus,
            TokenType::Multiply,
            TokenType::Divide,
            TokenType::Plus,
        ]
    );
}

#[test]
fn lex_keeps_hyphens_in_names() {
    let (tokens, _) = lex(&doc(), "all-pass ping-pong includes");
    let types: Vec<TokenType> = tokens.into_iter().map(|t| t.token_type).collect();
    assert_eq!(types, vec![ident("all-pass"), ident("ping-pong"), ident("includes")]);
}

#[test]
fn lex_string_needs_its_closing_quote_on_the_line() {
    let (tokens, errors) = lex(&doc(), "\"abc\n\"");
    assert_eq!(tokens, vec![token(ident("abc"), 1, 1, 2, 3)]);
    assert_eq!(errors.len(), 2);
    match (&errors[0], &errors[1]) {
        (
            LexerError::UnknownToken { culprit: first, source_loc: first_loc },
            LexerError::UnknownToken { culprit: second, source_loc: second_loc },
        ) => {
            assert_eq!(first, "\"");
            assert_eq!(*first_loc, loc(0, 1, 1, 1));
            assert_eq!(second, "\"");
            assert_eq!(*second_loc, loc(5, 2, 1, 1));
        },
        other => panic!("unexpected errors {other:?}"),
    }
}

#[test]
fn lex_counts_bytes_not_characters() {
    let (tokens, errors) = lex(&doc(), "é x");
    assert_eq!(tokens, vec![token(ident("x"), 3, 1, 4, 1)]);
    match &errors[..] {
        [LexerError::UnknownToken { culprit, source_loc }] => {
            assert_eq!(culprit, "é");
            assert_eq!(*source_loc, loc(0, 1, 1, 2));
        },
        other => panic!("unexpected errors {other:?}"),
    }
}

#[test]
fn lex_of_empty_text_is_empty() {
    let (tokens, errors) = lex(&doc(), "");
    assert!(tokens.is_empty());
    assert!(errors.is_empty());
}

#[test]
fn number_with_a_trailing_dot_stops_before_it() {
    let (tokens, errors) = lex(&doc(), "12.");
    assert_eq!(tokens, vec![token(TokenType::Number("12".to_string()), 0, 1, 1, 2)]);
    assert_eq!(errors.len(), 1);
}

#[test]
fn ordinary_texts_do_not_overflow_the_line_count() {
    assert!(!line_count_overflows_exec(""));
    assert!(!line_count_overflows_exec("\n\n\nsine(frequency: 1)\n"));
}
