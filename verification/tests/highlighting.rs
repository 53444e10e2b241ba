use organic_lsp::lexer::doc_loc::DocLoc;
use organic_lsp::lexer::source_loc::SourceLoc;
use organic_lsp::lexer::token::{Token, TokenType};
use organic_lsp::lsp::semantic_tokens::{
    as_lsp_token, as_modifier_int, as_type_int, calc_semantic_tokens, convert_token, token_types, Modifier,
    Semantic, SemanticKind, SemanticToken,
};

fn doc() -> DocLoc {
    DocLoc::new("file:///song.organic".to_string())
}

fn st(delta_line: u32, delta_start: u32, length: u32, token_type: u32) -> SemanticToken {
    SemanticToken { delta_line, delta_start, length, token_type, token_modifiers_bitset: 0 }
}

#[test]
fn semantic_tokens_of_two_calls() {
    let data = calc_semantic_tokens(&doc(), "sine(frequency: 440)\nsaw(x: 1)");
    assert_eq!(
        data,
        vec![st(0, 0, 4, 6), st(0, 5, 9, 6), st(0, 11, 3, 2), st(1, 0, 3, 6), st(0, 4, 1, 6), st(0, 3, 1, 2)]
    );
}

#[test]
fn semantic_tokens_of_operators_strings_and_keywords() {
    let data = calc_semantic_tokens(&doc(), "include \"x\"\n  a <= 2 * b");
    assert_eq!(
        data,
        vec![st(0, 0, 7, 100), st(0, 8, 3, 5), st(1, 2, 1, 6), st(0, 2, 2, 3), st(0, 3, 1, 2), st(0, 2, 1, 3), st(0, 2, 1, 6)]
    );
}

#[test]
fn punctuation_is_not_highlighted() {
    assert!(calc_semantic_tokens(&doc(), "( ) [ ] { } , : =").is_empty());
}

#[test]
fn decoding_the_deltas_gives_back_the_places() {
    let text = "a b\n\n  c d\ne";
    let data = calc_semantic_tokens(&doc(), text);
    let mut line = 0u32;
    let mut column = 0u32;
    let mut places = Vec::new();
    for d in &data {
        if d.delta_line == 0 {
            column += d.delta_start;
        } else {
            line += d.delta_line;
            column = d.delta_start;
        }
        places.push((line, column, d.length));
    }
    assert_eq!(places, vec![(0, 0, 1), (0, 2, 1), (2, 2, 1), (2, 4, 1), (3, 0, 1)]);
}

#[test]
fn legend_order_gives_type_numbers() {
    let kinds = token_types();
    assert_eq!(kinds.len(), 7);
    for (i, kind) in kinds.iter().enumerate() {
        assert_eq!(as_type_int(kind), i as u32);
    }
    assert_eq!(as_type_int(&SemanticKind::Variable), 6);
    assert_eq!(as_type_int(&SemanticKind::Keyword), 100);
}

#[test]
fn modifiers_are_bits() {
    assert_eq!(as_modifier_int(&Modifier::_Mod1), 1);
    assert_eq!(as_modifier_int(&Modifier::_Mod2), 2);
    assert_eq!(as_modifier_int(&Modifier::_Mod3), 4);
    let semantic = Semantic {
        line: 2,
        start: 3,
        length: 4,
        token_type: SemanticKind::Number,
        modifiers: vec![Modifier::_Mod1, Modifier::_Mod3],
    };
    assert_eq!(
        as_lsp_token(&semantic),
        SemanticToken { delta_line: 2, delta_start: 3, length: 4, token_type: 2, token_modifiers_bitset: 5 }
    );
}

#[test]
fn convert_token_is_relative_to_the_last_token() {
    let last = SourceLoc { doc_loc: doc(), pos: 0, line: 3, column: 5, length: 2 };
    let same_line = Token {
        token_type: TokenType::Number("7".to_string()),
        source_loc: SourceLoc { doc_loc: doc(), pos: 9, line: 3, column: 9, length: 1 },
    };
    let s = convert_token(&same_line, &last).expect("a number is highlighted");
    assert_eq!((s.line, s.start, s.length, s.token_type), (0, 4, 1, SemanticKind::Number));
    let later_line = Token {
        token_type: TokenType::Identifier("v".to_string()),
        source_loc: SourceLoc { doc_loc: doc(), pos: 30, line: 5, column: 2, length: 1 },
    };
    let s = convert_token(&later_line, &last).expect("a name is highlighted");
    assert_eq!((s.line, s.start, s.length, s.token_type), (2, 1, 1, SemanticKind::Variable));
    let comma = Token {
        token_type: TokenType::Comma,
        source_loc: SourceLoc { doc_loc: doc(), pos: 10, line: 3, column: 10, length: 1 },
    };
    assert!(convert_token(&comma, &last).is_none());
}
