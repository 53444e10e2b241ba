use vstd::prelude::*;

use crate::lexer::doc_loc::DocLoc;
use crate::lexer::placement::{lemma_lex_places, loc_before, tokens_in_order};
use crate::lexer::scanner::lexemes;
use crate::lexer::source_loc::{SourceLoc, SourceLocModel};
use crate::lexer::token::{Token, TokenKind, TokenModel, TokenType};
use crate::lexer::{lex, lex_result, line_count_overflows, token_models};

verus! {

/// The kinds of semantic token that the server tells its clients about.
#[derive(Debug, Clone, Copy, PartialEq, Eq)]
pub enum SemanticKind {
    Function,
    LanguageConstant,
    Number,
    Operator,
    Parameter,
    String,
    Variable,
    Keyword,
}

/// The legend of token types that the server announces, in the order that
/// gives each its number.  `Keyword` is not in it.
pub open spec fn legend() -> Seq<SemanticKind> {
    seq![
        SemanticKind::Function,
        SemanticKind::LanguageConstant,
        SemanticKind::Number,
        SemanticKind::Operator,
        SemanticKind::Parameter,
        SemanticKind::String,
        SemanticKind::Variable,
    ]
}

/// The legend of token types, as [`legend`] gives it.
pub fn token_types() -> (kinds: Vec<SemanticKind>)
    ensures
        kinds@ == legend(),
{
    let kinds = vec![
        SemanticKind::Function,
        SemanticKind::LanguageConstant,
        SemanticKind::Number,
        SemanticKind::Operator,
        SemanticKind::Parameter,
        SemanticKind::String,
        SemanticKind::Variable,
    ];
    assert(kinds@ =~= legend());
    kinds
}

/// Token modifiers, each a bit of the modifier set.
#[derive(Debug, Clone, Copy, PartialEq, Eq)]
pub enum Modifier {
    _Mod1,
    _Mod2,
    _Mod3,
}

/// A highlighted token relative to the one before it: lines down, and
/// columns right (from the previous token's column on the same line, from
/// the start of the line on another).
pub struct Semantic {
    pub line: u32,
    pub start: u32,
    pub length: u32,
    pub token_type: SemanticKind,
    pub modifiers: Vec<Modifier>,
}

/// A semantic token as the protocol sends it.
#[derive(Debug, Clone, Copy, PartialEq, Eq)]
pub struct SemanticToken {
    pub delta_line: u32,
    pub delta_start: u32,
    pub length: u32,
    pub token_type: u32,
    pub token_modifiers_bitset: u32,
}

/// How a token is highlighted, if at all: punctuation is not.
pub open spec fn semantic_kind(k: TokenKind) -> Option<SemanticKind> {
    match k {
        TokenKind::Comma => None,
        TokenKind::Colon => None,
        TokenKind::Divide => Some(SemanticKind::Operator),
        TokenKind::Equals => None,
        TokenKind::GreaterThan => Some(SemanticKind::Operator),
        TokenKind::GreaterThanEquals => Some(SemanticKind::Operator),
        TokenKind::Identifier(_) => Some(SemanticKind::Variable),
        TokenKind::Include => Some(SemanticKind::Keyword),
        TokenKind::LeftBrace => None,
        TokenKind::LeftBracket => None,
        TokenKind::LeftParen => None,
        TokenKind::LessThan => Some(SemanticKind::Operator),
        TokenKind::LessThanEquals => Some(SemanticKind::Operator),
        TokenKind::Newline => None,
        TokenKind::Number(_) => Some(SemanticKind::Number),
        TokenKind::Minus => Some(SemanticKind::Operator),
        TokenKind::Multiply => Some(SemanticKind::Operator),
        TokenKind::Plus => Some(SemanticKind::Operator),
        TokenKind::RightBrace => None,
        TokenKind::RightBracket => None,
        TokenKind::RightParen => None,
        TokenKind::String(_) => Some(SemanticKind::String),
        TokenKind::Whitespace => None,
    }
}

/// The number of a token type: its index in the legend; 100 for a type
/// that is not in it.
pub open spec fn type_number(k: SemanticKind) -> u32 {
    match k {
        SemanticKind::Function => 0,
        SemanticKind::LanguageConstant => 1,
        SemanticKind::Number => 2,
        SemanticKind::Operator => 3,
        SemanticKind::Parameter => 4,
        SemanticKind::String => 5,
        SemanticKind::Variable => 6,
        SemanticKind::Keyword => 100,
    }
}

/// The bit of a modifier.
pub open spec fn modifier_bit(m: Modifier) -> u32 {
    match m {
        Modifier::_Mod1 => 1,
        Modifier::_Mod2 => 2,
        Modifier::_Mod3 => 4,
    }
}

/// The sum of the bits of some modifiers.
pub open spec fn modifier_sum(ms: Seq<Modifier>) -> nat
    decreases ms.len(),
{
    if ms.len() == 0 {
        0
    } else {
        modifier_sum(ms.drop_last()) + modifier_bit(ms.last()) as nat
    }
}

/// The bit of a modifier.
pub fn as_modifier_int(modifier: &Modifier) -> (bit: u32)
    ensures
        bit == modifier_bit(*modifier),
{
    match modifier {
        Modifier::_Mod1 => 1,
        Modifier::_Mod2 => 2,
        Modifier::_Mod3 => 4,
    }
}

/// The number of a token type in the legend (100 where it has none).
pub fn as_type_int(token_type: &SemanticKind) -> (number: u32)
    ensures
        number == type_number(*token_type),
{
    match token_type {
        SemanticKind::Function => 0,
        SemanticKind::LanguageConstant => 1,
        SemanticKind::Number => 2,
        SemanticKind::Operator => 3,
        SemanticKind::Parameter => 4,
        SemanticKind::String => 5,
        SemanticKind::Variable => 6,
        SemanticKind::Keyword => 100,
    }
}

/// A semantic token as the protocol sends it: the deltas, the length, the
/// number of the type and the sum of the modifier bits.
pub fn as_lsp_token(token: &Semantic) -> (lsp: SemanticToken)
    requires
        modifier_sum(token.modifiers@) <= u32::MAX,
    ensures
        lsp == (SemanticToken {
            delta_line: token.line,
            delta_start: token.start,
            length: token.length,
            token_type: type_number(token.token_type),
            token_modifiers_bitset: modifier_sum(token.modifiers@) as u32,
        }),
{
    let token_type = as_type_int(&token.token_type);
    let mut modifiers: u32 = 0;
    let mut i: usize = 0;
    while i < token.modifiers.len()
        invariant
            i <= token.modifiers@.len(),
            modifier_sum(token.modifiers@) <= u32::MAX,
            modifiers == modifier_sum(token.modifiers@.take(i as int)),
        decreases token.modifiers@.len() - i,
    {
        proof {
            assert(token.modifiers@.take(i + 1).drop_last() =~= token.modifiers@.take(i as int));
            lemma_modifier_sum_prefix(token.modifiers@, i as int + 1);
        }
        modifiers = modifiers + as_modifier_int(&token.modifiers[i]);
        i = i + 1;
    }
    assert(token.modifiers@.take(i as int) =~= token.modifiers@);
    SemanticToken {
        delta_line: token.line,
        delta_start: token.start,
        length: token.length,
        token_type,
        token_modifiers_bitset: modifiers,
    }
}

proof fn lemma_modifier_sum_prefix(ms: Seq<Modifier>, k: int)
    requires
        0 <= k <= ms.len(),
    ensures
        modifier_sum(ms.take(k)) <= modifier_sum(ms),
    decreases ms.len() - k,
{
    if k < ms.len() {
        lemma_modifier_sum_prefix(ms, k + 1);
        assert(ms.take(k + 1).drop_last() =~= ms.take(k));
    } else {
        assert(ms.take(k) =~= ms);
    }
}

/// `token` may follow `last` in the delta encoding: it starts no earlier.
pub open spec fn follows(token: SourceLocModel, last_line: u32, last_column: u32) -> bool {
    token.line > last_line || (token.line == last_line && token.column >= last_column)
}

/// The highlighting of `token` relative to the token highlighted before it,
/// which stands at `last_line`, `last_column`.
pub open spec fn semantic_token_of(token: TokenModel, last_line: u32, last_column: u32) -> Option<
    SemanticToken,
> {
    match semantic_kind(token.token_type) {
        None => None,
        Some(kind) => {
            let loc = token.source_loc;
            let delta_line = (loc.line - last_line) as u32;
            let delta_start = if delta_line == 0 {
                (loc.column - last_column) as u32
            } else {
                (loc.column - 1) as u32
            };
            Some(
                SemanticToken {
                    delta_line,
                    delta_start,
                    length: loc.length,
                    token_type: type_number(kind),
                    token_modifiers_bitset: 0,
                },
            )
        },
    }
}

/// Highlights one token relative to the last one highlighted; punctuation
/// is not highlighted.
pub fn convert_token(token: &Token, last_loc: &SourceLoc) -> (semantic: Option<Semantic>)
    requires
        token.token_type@ != TokenKind::Newline,
        token.token_type@ != TokenKind::Whitespace,
        token.source_loc@.wf(),
        follows(token.source_loc@, last_loc.line, last_loc.column),
    ensures
        match semantic {
            None => semantic_token_of(token@, last_loc.line, last_loc.column) is None,
            Some(s) => s.modifiers@.len() == 0 && semantic_token_of(
                token@,
                last_loc.line,
                last_loc.column,
            ) == Some(
                SemanticToken {
                    delta_line: s.line,
                    delta_start: s.start,
                    length: s.length,
                    token_type: type_number(s.token_type),
                    token_modifiers_bitset: 0,
                },
            ),
        },
{
    let opt = match token.token_type {
        TokenType::Comma => None,
        TokenType::Colon => None,
        TokenType::Divide => Some(SemanticKind::Operator),
        TokenType::Equals => None,
        TokenType::GreaterThan => Some(SemanticKind::Operator),
        TokenType::GreaterThanEquals => Some(SemanticKind::Operator),
        TokenType::Identifier(_) => Some(SemanticKind::Variable),
        TokenType::Include => Some(SemanticKind::Keyword),
        TokenType::LeftBrace => None,
        TokenType::LeftBracket => None,
        TokenType::LeftParen => None,
        TokenType::LessThan => Some(SemanticKind::Operator),
        TokenType::LessThanEquals => Some(SemanticKind::Operator),
        TokenType::Newline => None,
        TokenType::Number(_) => Some(SemanticKind::Number),
        TokenType::Minus => Some(SemanticKind::Operator),
        TokenType::Multiply => Some(SemanticKind::Operator),
        TokenType::Plus => Some(SemanticKind::Operator),
        TokenType::RightBrace => None,
        TokenType::RightBracket => None,
        TokenType::RightParen => None,
        TokenType::String(_) => Some(SemanticKind::String),
        TokenType::Whitespace => None,
    };
    match opt {
        None => None,
        Some(token_type) => {
            let line = token.source_loc.line - last_loc.line;
            let start = if line == 0 {
                token.source_loc.column - last_loc.column
            } else {
                token.source_loc.column - 1
            };
            let length = token.source_loc.length;
            Some(Semantic { line, start, length, token_type, modifiers: Vec::new() })
        },
    }
}

/// The semantic tokens of the first `n` of `tokens`, each relative to the
/// one highlighted before it (the first relative to line 1, column 1), with
/// the line and column of the last one highlighted.
pub open spec fn encoded(tokens: Seq<TokenModel>, n: int) -> (Seq<SemanticToken>, u32, u32)
    decreases n,
{
    if n <= 0 || n > tokens.len() {
        (seq![], 1, 1)
    } else {
        let (prev, last_line, last_column) = encoded(tokens, n - 1);
        let t = tokens[n - 1];
        match semantic_token_of(t, last_line, last_column) {
            None => (prev, last_line, last_column),
            Some(s) => (prev.push(s), t.source_loc.line, t.source_loc.column),
        }
    }
}

/// The semantic tokens of a document: its tokens, highlighted, in the
/// protocol's relative encoding.
pub open spec fn semantic_tokens_of(uri: Seq<char>, text: Seq<char>) -> Seq<SemanticToken> {
    let tokens = lex_result(uri, lexemes(text)).0;
    encoded(tokens, tokens.len() as int).0
}

/// Tokens that the encoding can take in turn: well placed, in order, and
/// none a line break or a blank.
pub open spec fn encodable(tokens: Seq<TokenModel>) -> bool {
    &&& forall|k: int|
        0 <= k < tokens.len() ==> {
            &&& (#[trigger] tokens[k]).source_loc.wf()
            &&& tokens[k].token_type != TokenKind::Newline
            &&& tokens[k].token_type != TokenKind::Whitespace
        }
    &&& tokens_in_order(tokens)
}

proof fn lemma_encoded_last(tokens: Seq<TokenModel>, n: int)
    requires
        encodable(tokens),
        0 <= n <= tokens.len(),
    ensures
        encoded(tokens, n).1 >= 1,
        encoded(tokens, n).2 >= 1,
        forall|k: int|
            n <= k < tokens.len() ==> follows(
                (#[trigger] tokens[k]).source_loc,
                encoded(tokens, n).1,
                encoded(tokens, n).2,
            ),
    decreases n,
{
    if n > 0 {
        lemma_encoded_last(tokens, n - 1);
        assert forall|k: int| n <= k < tokens.len() implies follows(
            (#[trigger] tokens[k]).source_loc,
            encoded(tokens, n).1,
            encoded(tokens, n).2,
        ) by {
            assert(loc_before(tokens[n - 1].source_loc, tokens[k].source_loc));
        }
    }
}

/// The semantic tokens of a document, in the protocol's relative encoding.
pub fn calc_semantic_tokens(doc_loc: &DocLoc, text: &str) -> (data: Vec<SemanticToken>)
    requires
        !line_count_overflows(text@),
    ensures
        data@ == semantic_tokens_of(doc_loc.uri@, text@),
{
    let (tokens, _) = lex(doc_loc, text);
    let ghost ts = token_models(tokens@);
    proof {
        lemma_lex_places(doc_loc.uri@, text@);
    }
    let mut last_loc = SourceLoc { doc_loc: doc_loc.clone(), pos: 0, line: 1, column: 1, length: 0 };
    let mut data: Vec<SemanticToken> = Vec::new();
    let mut i: usize = 0;
    proof {
        lemma_encoded_last(ts, 0);
    }
    while i < tokens.len()
        invariant
            i <= tokens@.len(),
            ts == token_models(tokens@),
            ts == lex_result(doc_loc.uri@, lexemes(text@)).0,
            encodable(ts),
            data@ == encoded(ts, i as int).0,
            last_loc.line == encoded(ts, i as int).1,
            last_loc.column == encoded(ts, i as int).2,
        decreases tokens@.len() - i,
    {
        proof {
            lemma_encoded_last(ts, i as int);
        }
        let token = &tokens[i];
        assert(token@ == ts[i as int]);
        if let Some(converted) = convert_token(token, &last_loc) {
            data.push(as_lsp_token(&converted));
            last_loc = token.source_loc.clone();
        }
        i = i + 1;
    }
    data
}

// ---------------------------------------------------------------------------
// Reading the encoding back.
// ---------------------------------------------------------------------------

/// The place (line and column, both counted from 0) at which a client that
/// reads the first `n` semantic tokens puts the last of them; `(0, 0)` for
/// none.
pub open spec fn decoded_at(data: Seq<SemanticToken>, n: int) -> (int, int)
    decreases n,
{
    if n <= 0 || n > data.len() {
        (0, 0)
    } else {
        let (line, column) = decoded_at(data, n - 1);
        let d = data[n - 1];
        if d.delta_line == 0 {
            (line, column + d.delta_start)
        } else {
            (line + d.delta_line, d.delta_start as int)
        }
    }
}

/// The tokens among the first `n` that are highlighted.
pub open spec fn highlighted(tokens: Seq<TokenModel>, n: int) -> Seq<TokenModel>
    decreases n,
{
    if n <= 0 || n > tokens.len() {
        seq![]
    } else {
        let prev = highlighted(tokens, n - 1);
        if semantic_kind(tokens[n - 1].token_type) is Some {
            prev.push(tokens[n - 1])
        } else {
            prev
        }
    }
}

proof fn lemma_decode_encoded(tokens: Seq<TokenModel>, n: int)
    requires
        encodable(tokens),
        0 <= n <= tokens.len(),
    ensures
        ({
            let (data, last_line, last_column) = encoded(tokens, n);
            let hs = highlighted(tokens, n);
            &&& data.len() == hs.len()
            &&& decoded_at(data, data.len() as int) == (last_line - 1, last_column - 1)
            &&& hs.len() == 0 ==> last_line == 1 && last_column == 1
            &&& hs.len() > 0 ==> last_line == hs.last().source_loc.line && last_column
                == hs.last().source_loc.column
            &&& forall|k: int|
                0 <= k < data.len() ==> {
                    &&& decoded_at(data, k + 1) == (
                        (#[trigger] hs[k]).source_loc.line - 1,
                        hs[k].source_loc.column - 1,
                    )
                    &&& data[k].length == hs[k].source_loc.length
                    &&& semantic_kind(hs[k].token_type) is Some && data[k].token_type == type_number(semantic_kind(hs[k].token_type)->0)
                }
        }),
    decreases n,
{
    if n > 0 {
        lemma_decode_encoded(tokens, n - 1);
        lemma_encoded_last(tokens, n - 1);
        let (prev, ll, lc) = encoded(tokens, n - 1);
        let (data, _, _) = encoded(tokens, n);
        let hp = highlighted(tokens, n - 1);
        let hs = highlighted(tokens, n);
        let t = tokens[n - 1];
        if semantic_token_of(t, ll, lc) is Some {
            let s = semantic_token_of(t, ll, lc)->0;
            assert(data == prev.push(s));
            assert(hs == hp.push(t));
            assert(follows(t.source_loc, ll, lc));
            assert forall|k: int| 0 <= k < data.len() implies {
                &&& decoded_at(data, k + 1) == (
                    (#[trigger] hs[k]).source_loc.line - 1,
                    hs[k].source_loc.column - 1,
                )
                &&& data[k].length == hs[k].source_loc.length
                &&& semantic_kind(hs[k].token_type) is Some && data[k].token_type == type_number(semantic_kind(hs[k].token_type)->0)
            } by {
                if k < prev.len() {
                    assert(data[k] == prev[k]);
                    assert(hs[k] == hp[k]);
                    lemma_decoded_prefix(prev, data, k + 1);
                } else {
                    assert(k == prev.len());
                    assert(data[k] == s);
                    assert(hs[k] == t);
                    lemma_decoded_prefix(prev, data, prev.len() as int);
                    assert(decoded_at(data, k) == (ll - 1, lc - 1));
                    assert(t.source_loc.wf());
                    if t.source_loc.line == ll {
                        assert(s.delta_line == 0);
                    } else {
                        assert(s.delta_line != 0);
                    }
                }
            }
        } else {
            assert(data == prev);
            assert(hs == hp);
        }
    }
}

proof fn lemma_decoded_prefix(a: Seq<SemanticToken>, b: Seq<SemanticToken>, n: int)
    requires
        0 <= n <= a.len() <= b.len(),
        forall|k: int| 0 <= k < a.len() ==> a[k] == b[k],
    ensures
        decoded_at(a, n) == decoded_at(b, n),
    decreases n,
{
    if n > 0 {
        lemma_decoded_prefix(a, b, n - 1);
    }
}

/// A client that reads the semantic tokens of a document back puts each at
/// the line and column (counted from 0) of the token it highlights, with
/// that token's length and type: the relative encoding loses nothing.
pub proof fn lemma_semantic_tokens_decode(uri: Seq<char>, text: Seq<char>)
    requires
        !line_count_overflows(text),
    ensures
        ({
            let tokens = lex_result(uri, lexemes(text)).0;
            let data = semantic_tokens_of(uri, text);
            let hs = highlighted(tokens, tokens.len() as int);
            &&& data.len() == hs.len()
            &&& forall|k: int|
                0 <= k < data.len() ==> {
                    &&& decoded_at(data, k + 1) == (
                        (#[trigger] hs[k]).source_loc.line - 1,
                        hs[k].source_loc.column - 1,
                    )
                    &&& data[k].length == hs[k].source_loc.length
                    &&& semantic_kind(hs[k].token_type) is Some && data[k].token_type == type_number(semantic_kind(hs[k].token_type)->0)
                }
        }),
{
    lemma_lex_places(uri, text);
    let tokens = lex_result(uri, lexemes(text)).0;
    lemma_decode_encoded(tokens, tokens.len() as int);
}

/// The punctuation of the language: parentheses, brackets, braces, commas,
/// colons and the equals sign.
pub open spec fn is_punctuation(k: TokenKind) -> bool {
    match k {
        TokenKind::LeftParen | TokenKind::RightParen | TokenKind::LeftBracket
        | TokenKind::RightBracket | TokenKind::LeftBrace | TokenKind::RightBrace | TokenKind::Comma
        | TokenKind::Colon | TokenKind::Equals => true,
        _ => false,
    }
}

/// The arithmetic and comparison operators: `+ - * / < <= > >=`.
pub open spec fn is_operator(k: TokenKind) -> bool {
    match k {
        TokenKind::Plus | TokenKind::Minus | TokenKind::Multiply | TokenKind::Divide
        | TokenKind::LessThan | TokenKind::LessThanEquals | TokenKind::GreaterThan
        | TokenKind::GreaterThanEquals => true,
        _ => false,
    }
}

proof fn lemma_highlighted_filter(tokens: Seq<TokenModel>, n: int)
    requires
        0 <= n <= tokens.len(),
        forall|i: int|
            0 <= i < tokens.len() ==> (#[trigger] tokens[i]).token_type != TokenKind::Newline
                && tokens[i].token_type != TokenKind::Whitespace,
    ensures
        highlighted(tokens, n) == tokens.take(n).filter(
            |t: TokenModel| !is_punctuation(t.token_type),
        ),
    decreases n,
{
    reveal(Seq::filter);
    if n > 0 {
        lemma_highlighted_filter(tokens, n - 1);
        assert(tokens.take(n).drop_last() =~= tokens.take(n - 1));
        assert(tokens.take(n).last() == tokens[n - 1]);
    } else {
        assert(tokens.take(0) =~= Seq::<TokenModel>::empty());
    }
}

/// Highlighting leaves out the punctuation and nothing else: the highlighted
/// tokens are the document's tokens without its punctuation, in order. Every
/// operator is highlighted as an operator (type 3), every name as a
/// variable (type 6), every number as a number (type 2) and every string as
/// a string (type 5).
pub proof fn lemma_only_punctuation_unhighlighted(uri: Seq<char>, text: Seq<char>)
    requires
        !line_count_overflows(text),
    ensures
        ({
            let tokens = lex_result(uri, lexemes(text)).0;
            let data = semantic_tokens_of(uri, text);
            let hs = highlighted(tokens, tokens.len() as int);
            &&& hs == tokens.filter(|t: TokenModel| !is_punctuation(t.token_type))
            &&& data.len() == hs.len()
            &&& forall|k: int|
                0 <= k < data.len() ==> {
                    &&& is_operator((#[trigger] hs[k]).token_type) ==> data[k].token_type == 3
                    &&& hs[k].token_type is Identifier ==> data[k].token_type == 6
                    &&& hs[k].token_type is Number ==> data[k].token_type == 2
                    &&& hs[k].token_type is String ==> data[k].token_type == 5
                }
        }),
{
    lemma_lex_places(uri, text);
    lemma_semantic_tokens_decode(uri, text);
    let tokens = lex_result(uri, lexemes(text)).0;
    lemma_highlighted_filter(tokens, tokens.len() as int);
    assert(tokens.take(tokens.len() as int) =~= tokens);
}

} // verus!
