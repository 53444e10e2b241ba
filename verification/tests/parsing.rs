use organic_lsp::errors::{LexerError, LspError, ParserError};
use organic_lsp::lexer::doc_loc::DocLoc;
use organic_lsp::lexer::source_loc::{MiniLoc, SourceLoc};
use organic_lsp::lexer::token::{Token, TokenType};
use organic_lsp::parser::actions::{as_args, as_formals, as_symbol, sequence, Param};
use organic_lsp::parser::ast::{Expr, FuncCall, Statement, Symbol};
use organic_lsp::parser::{analyze, as_parser_error, gather, token_triples, GrammarError};

fn doc() -> DocLoc {
    DocLoc::new("file:///song.organic".to_string())
}

fn token(token_type: TokenType, line: u32, column: u32, length: u32) -> Token {
    Token { token_type, source_loc: SourceLoc { doc_loc: doc(), pos: 0, line, column, length } }
}

fn symbol(name: &str) -> Symbol {
    Symbol { name: name.to_string(), token: token(TokenType::Identifier(name.to_string()), 1, 1, name.len() as u32) }
}

fn number(text: &str) -> Expr {
    Expr::Number { value: text.to_string(), token: token(TokenType::Number(text.to_string()), 1, 1, text.len() as u32) }
}

#[test]
fn as_symbol_takes_the_name_of_an_identifier() {
    let ident = token(TokenType::Identifier("volume".to_string()), 2, 3, 6);
    let s = as_symbol(&ident, "argument name");
    assert_eq!(s.name, "volume");
    assert_eq!(s.token, ident);
}

#[test]
fn sequence_puts_the_head_first() {
    assert_eq!(sequence(1, vec![2, 3]), vec![1, 2, 3]);
    assert_eq!(sequence("a", Vec::new()), vec!["a"]);
}

#[test]
fn params_become_args_and_formals() {
    let params = vec![
        Param { symbol: symbol("x"), value_option: Some(number("1")) },
        Param { symbol: symbol("y"), value_option: Some(number("2.5")) },
    ];
    let args = as_args(params);
    assert_eq!(args.len(), 2);
    assert_eq!(args[0].name.name, "x");
    assert!(matches!(&args[1].value, Expr::Number { value, .. } if value == "2.5"));

    let params = vec![
        Param { symbol: symbol("a"), value_option: None },
        Param { symbol: symbol("b"), value_option: Some(number("3")) },
    ];
    let formals = as_formals(params);
    assert_eq!(formals.len(), 2);
    assert_eq!(formals[0].name.name, "a");
    assert!(formals[0].default.is_none());
    assert!(matches!(&formals[1].default, Some(Expr::Number { value, .. }) if value == "3"));
}

#[test]
fn grammar_errors_become_parser_errors() {
    let location = MiniLoc { line: 1, column: 4 };
    assert!(matches!(
        as_parser_error(GrammarError::InvalidToken { location }),
        ParserError::FictionalToken { location: l } if l == location
    ));
    let comma = token(TokenType::Comma, 1, 4, 1);
    let end = MiniLoc { line: 1, column: 5 };
    match as_parser_error(GrammarError::UnrecognizedToken {
        token: (location, comma.clone(), end),
        expected: vec!["\")\"".to_string()],
    }) {
        ParserError::WrongToken { token, expected } => {
            assert_eq!(token, comma);
            assert_eq!(expected, vec!["\")\"".to_string()]);
        },
        other => panic!("unexpected error {other:?}"),
    }
    match as_parser_error(GrammarError::ExtraToken { token: (location, comma.clone(), end) }) {
        ParserError::ExtraToken { token } => assert_eq!(token, comma),
        other => panic!("unexpected error {other:?}"),
    }
    match as_parser_error(GrammarError::UnrecognizedEof { location, expected: Vec::new() }) {
        ParserError::UnexpectedEOF { location: l, expected } => {
            assert_eq!(l, location);
            assert!(expected.is_empty());
        },
        other => panic!("unexpected error {other:?}"),
    }
    match as_parser_error(GrammarError::User { error: ParserError::FictionalToken { location: end } }) {
        ParserError::FictionalToken { location: l } => assert_eq!(l, end),
        other => panic!("unexpected error {other:?}"),
    }
}

#[test]
fn tokens_are_given_with_their_start_and_end() {
    let tokens = vec![token(TokenType::Plus, 1, 3, 1), token(TokenType::Identifier("abc".to_string()), 2, 7, 3)];
    let triples = token_triples(tokens.clone());
    assert_eq!(triples.len(), 2);
    assert_eq!(triples[0], (MiniLoc { line: 1, column: 3 }, tokens[0].clone(), MiniLoc { line: 1, column: 4 }));
    assert_eq!(triples[1], (MiniLoc { line: 2, column: 7 }, tokens[1].clone(), MiniLoc { line: 2, column: 10 }));
    let far = token(TokenType::Plus, 1, u32::MAX, 1);
    let triples = token_triples(vec![far]);
    assert_eq!(triples[0].2, MiniLoc { line: 1, column: u32::MAX });
}

#[test]
fn gather_puts_the_parser_error_first() {
    let lexer_errors = vec![
        LexerError::UnknownToken { culprit: "'".to_string(), source_loc: token(TokenType::Comma, 1, 2, 1).source_loc },
    ];
    let (statements, errors) = gather(lexer_errors, Err(GrammarError::InvalidToken { location: MiniLoc { line: 1, column: 1 } }));
    assert!(statements.is_empty());
    assert_eq!(errors.len(), 2);
    assert!(matches!(errors[0], LspError::LspParserError(ParserError::FictionalToken { .. })));
    assert!(matches!(errors[1], LspError::LspLexerError(LexerError::UnknownToken { .. })));

    let call = FuncCall { func: symbol("sine"), args: Vec::new() };
    let (statements, errors) = gather(Vec::new(), Ok(Statement::FunctionCall(Box::new(call))));
    assert_eq!(statements.len(), 1);
    assert!(errors.is_empty());
}

#[test]
fn analyze_hands_the_lexed_tokens_to_the_parser() {
    let (statements, errors) = analyze(&doc(), "sine ' (", |triples: Vec<(MiniLoc, Token, MiniLoc)>| {
        assert_eq!(triples.len(), 2);
        assert_eq!(triples[0].1.token_type, TokenType::Identifier("sine".to_string()));
        assert_eq!(triples[1].0, MiniLoc { line: 1, column: 8 });
        Err(GrammarError::UnrecognizedEof { location: MiniLoc { line: 1, column: 9 }, expected: vec!["\")\"".to_string()] })
    });
    assert!(statements.is_empty());
    assert_eq!(errors.len(), 2);
    assert!(matches!(errors[0], LspError::LspParserError(ParserError::UnexpectedEOF { .. })));
    assert!(matches!(&errors[1], LspError::LspLexerError(LexerError::UnknownToken { culprit, .. }) if culprit == "'"));
}
