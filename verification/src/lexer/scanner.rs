use vstd::prelude::*;

use crate::lexer::token::{TokenKind, TokenType};
use crate::text::{push_char, text_chars};

verus! {

// ---------------------------------------------------------------------------
// Character classes of the Organic token grammar.
// ---------------------------------------------------------------------------

/// Blanks between tokens: space, tab, carriage return and form feed.
pub open spec fn is_blank(c: char) -> bool {
    c == ' ' || c == '\t' || c == '\r' || c == '\x0C'
}

/// Characters that may start a name: ASCII letters and `_`.
pub open spec fn is_letter(c: char) -> bool {
    let u = c as u32;
    (97 <= u && u <= 122) || (65 <= u && u <= 90) || u == 95
}

/// ASCII decimal digits.
pub open spec fn is_digit(c: char) -> bool {
    let u = c as u32;
    48 <= u && u <= 57
}

/// Characters that may continue a name: letters, digits, `_` and `-`
/// (names such as `all-pass` or `ping-pong` carry hyphens).
pub open spec fn is_name_char(c: char) -> bool {
    is_letter(c) || is_digit(c) || c == '-'
}

/// Characters that may stand inside a string literal.
pub open spec fn is_string_char(c: char) -> bool {
    c != '"' && c != '\n'
}

/// The number of name characters in `s` from index `i` on.
pub open spec fn name_run(s: Seq<char>, i: int) -> nat
    decreases s.len() - i,
{
    if 0 <= i < s.len() && is_name_char(s[i]) {
        1 + name_run(s, i + 1)
    } else {
        0
    }
}

/// The number of digits in `s` from index `i` on.
pub open spec fn digit_run(s: Seq<char>, i: int) -> nat
    decreases s.len() - i,
{
    if 0 <= i < s.len() && is_digit(s[i]) {
        1 + digit_run(s, i + 1)
    } else {
        0
    }
}

/// The number of string-literal characters in `s` from index `i` on.
pub open spec fn string_run(s: Seq<char>, i: int) -> nat
    decreases s.len() - i,
{
    if 0 <= i < s.len() && is_string_char(s[i]) {
        1 + string_run(s, i + 1)
    } else {
        0
    }
}

/// The keyword `include`.
pub open spec fn include_word() -> Seq<char> {
    seq!['i', 'n', 'c', 'l', 'u', 'd', 'e']
}

/// What the grammar makes of the text at one position: blanks to skip, a
/// character that starts no token, or a token.
pub enum Scan {
    Blank,
    Unknown,
    Token(TokenKind),
}

/// The single-character tokens.
pub open spec fn single_char_token(c: char) -> Option<TokenKind> {
    if c == '\n' {
        Some(TokenKind::Newline)
    } else if c == '+' {
        Some(TokenKind::Plus)
    } else if c == '-' {
        Some(TokenKind::Minus)
    } else if c == '*' {
        Some(TokenKind::Multiply)
    } else if c == '/' {
        Some(TokenKind::Divide)
    } else if c == '=' {
        Some(TokenKind::Equals)
    } else if c == ':' {
        Some(TokenKind::Colon)
    } else if c == ',' {
        Some(TokenKind::Comma)
    } else if c == '(' {
        Some(TokenKind::LeftParen)
    } else if c == ')' {
        Some(TokenKind::RightParen)
    } else if c == '[' {
        Some(TokenKind::LeftBracket)
    } else if c == ']' {
        Some(TokenKind::RightBracket)
    } else if c == '{' {
        Some(TokenKind::LeftBrace)
    } else if c == '}' {
        Some(TokenKind::RightBrace)
    } else {
        None
    }
}

/// The longest token that starts at index `i` of `s`, and its length in
/// characters.  Names, numbers and comparison operators take the longest
/// match; a name that reads `include` is the keyword; a string literal runs
/// to the next `"` on the same line, and a `"` without one starts no token.
pub open spec fn scan_at(s: Seq<char>, i: int) -> (Scan, nat) {
    let c = s[i];
    if is_blank(c) {
        (Scan::Blank, 1)
    } else if is_letter(c) {
        let n = 1 + name_run(s, i + 1);
        let text = s.subrange(i, i + n);
        if text == include_word() {
            (Scan::Token(TokenKind::Include), n)
        } else {
            (Scan::Token(TokenKind::Identifier(text)), n)
        }
    } else if is_digit(c) {
        let n1 = 1 + digit_run(s, i + 1);
        let j = i + n1;
        if j + 1 < s.len() && s[j] == '.' && is_digit(s[j + 1]) {
            let n = n1 + 2 + digit_run(s, j + 2);
            (Scan::Token(TokenKind::Number(s.subrange(i, i + n))), n)
        } else {
            (Scan::Token(TokenKind::Number(s.subrange(i, j))), n1)
        }
    } else if c == '"' {
        let m = string_run(s, i + 1);
        let j = i + 1 + m;
        if j < s.len() && s[j] == '"' {
            (Scan::Token(TokenKind::String(s.subrange(i + 1, j))), m + 2)
        } else {
            (Scan::Unknown, 1)
        }
    } else if c == '<' {
        if i + 1 < s.len() && s[i + 1] == '=' {
            (Scan::Token(TokenKind::LessThanEquals), 2)
        } else {
            (Scan::Token(TokenKind::LessThan), 1)
        }
    } else if c == '>' {
        if i + 1 < s.len() && s[i + 1] == '=' {
            (Scan::Token(TokenKind::GreaterThanEquals), 2)
        } else {
            (Scan::Token(TokenKind::GreaterThan), 1)
        }
    } else {
        match single_char_token(c) {
            Some(k) => (Scan::Token(k), 1),
            None => (Scan::Unknown, 1),
        }
    }
}

// ---------------------------------------------------------------------------
// Byte offsets: the UTF-8 length of text.
// ---------------------------------------------------------------------------

/// The number of bytes that the UTF-8 encoding of `c` takes.
pub open spec fn char_width(c: char) -> nat {
    let u = c as u32;
    if u <= 0x7F {
        1
    } else if u <= 0x7FF {
        2
    } else if u <= 0xFFFF {
        3
    } else {
        4
    }
}

/// The number of bytes that the UTF-8 encoding of `s` takes.
pub open spec fn utf8_len(s: Seq<char>) -> nat
    decreases s.len(),
{
    if s.len() == 0 {
        0
    } else {
        char_width(s[0]) + utf8_len(s.drop_first())
    }
}

pub proof fn lemma_utf8_len_concat(a: Seq<char>, b: Seq<char>)
    ensures
        utf8_len(a + b) == utf8_len(a) + utf8_len(b),
    decreases a.len(),
{
    if a.len() == 0 {
        assert(a + b =~= b);
    } else {
        assert((a + b).drop_first() =~= a.drop_first() + b);
        lemma_utf8_len_concat(a.drop_first(), b);
    }
}

/// Each character adds its width to the length of a prefix.
pub proof fn lemma_utf8_len_take_step(s: Seq<char>, k: int)
    requires
        0 <= k < s.len(),
    ensures
        utf8_len(s.take(k + 1)) == utf8_len(s.take(k)) + char_width(s[k]),
{
    assert(s.take(k + 1) =~= s.take(k) + seq![s[k]]);
    lemma_utf8_len_concat(s.take(k), seq![s[k]]);
    let one = seq![s[k]];
    assert(one.drop_first() =~= Seq::<char>::empty());
    assert(utf8_len(one.drop_first()) == 0);
    assert(utf8_len(one) == char_width(s[k]));
}

/// Prefixes never take more bytes than the whole.
pub proof fn lemma_utf8_len_take_bound(s: Seq<char>, j: int, k: int)
    requires
        0 <= j <= k <= s.len(),
    ensures
        utf8_len(s.take(j)) <= utf8_len(s.take(k)),
        utf8_len(s.take(k)) <= utf8_len(s),
{
    assert(s.take(k) =~= s.take(j) + s.take(k).skip(j));
    lemma_utf8_len_concat(s.take(j), s.take(k).skip(j));
    assert(s =~= s.take(k) + s.skip(k));
    lemma_utf8_len_concat(s.take(k), s.skip(k));
}

/// The width of a character is the length of its UTF-8 encoding.
pub proof fn lemma_char_width_encoding(c: char)
    ensures
        char_width(c) == vstd::utf8::encode_scalar(c as u32).len(),
{
    vstd::utf8::char_is_scalar(c);
}

/// `utf8_len` is the length of the UTF-8 encoding.
pub proof fn lemma_utf8_len_encoding(s: Seq<char>)
    ensures
        utf8_len(s) == vstd::utf8::encode_utf8(s).len(),
    decreases s.len(),
{
    if s.len() > 0 {
        lemma_char_width_encoding(s[0]);
        lemma_utf8_len_encoding(s.drop_first());
    }
}


// ---------------------------------------------------------------------------
// The lexemes of a text.
// ---------------------------------------------------------------------------

/// One lexeme: a token, or the text of a stretch that starts no token, with
/// its byte span in the document.
pub struct LexemeModel {
    pub token: Result<TokenKind, Seq<char>>,
    pub start: nat,
    pub end: nat,
}

/// The lexemes of `s` from character index `i` on, blanks left out.
pub open spec fn lexemes_from(s: Seq<char>, i: int) -> Seq<LexemeModel>
    decreases s.len() - i,
{
    if 0 <= i < s.len() {
        proof {
            lemma_scan_at_bounded(s, i);
        }
        let (scan, n) = scan_at(s, i);
        let rest = lexemes_from(s, i + n);
        let start = utf8_len(s.take(i));
        let end = utf8_len(s.take(i + n));
        match scan {
            Scan::Blank => rest,
            Scan::Unknown => seq![LexemeModel { token: Err(s.subrange(i, i + n)), start, end }]
                + rest,
            Scan::Token(k) => seq![LexemeModel { token: Ok(k), start, end }] + rest,
        }
    } else {
        seq![]
    }
}

/// The lexemes of a whole text.
pub open spec fn lexemes(s: Seq<char>) -> Seq<LexemeModel> {
    lexemes_from(s, 0)
}

pub proof fn lemma_runs_bounded(s: Seq<char>, i: int)
    requires
        0 <= i <= s.len(),
    ensures
        i + name_run(s, i) <= s.len(),
        i + digit_run(s, i) <= s.len(),
        i + string_run(s, i) <= s.len(),
    decreases s.len() - i,
{
    if i < s.len() {
        lemma_runs_bounded(s, i + 1);
    }
}

/// A scanned token never runs past the end of the text.
pub proof fn lemma_scan_at_bounded(s: Seq<char>, i: int)
    requires
        0 <= i < s.len(),
    ensures
        1 <= scan_at(s, i).1,
        i + scan_at(s, i).1 <= s.len(),
{
    lemma_runs_bounded(s, i + 1);
    let c = s[i];
    if is_digit(c) && !is_blank(c) && !is_letter(c) {
        let j = i + 1 + digit_run(s, i + 1);
        if j + 1 < s.len() {
            lemma_runs_bounded(s, j + 2);
        }
    }
}

/// Lexemes that do not overlap and come in the order of their spans.
pub open spec fn ordered(lexemes: Seq<LexemeModel>) -> bool {
    &&& forall|k: int| 0 <= k < lexemes.len() ==> lexemes[k].start < lexemes[k].end
    &&& forall|a: int, b: int|
        0 <= a < b < lexemes.len() ==> #[trigger] lexemes[a].end <= #[trigger] lexemes[b].start
}

/// Each lexeme lies within the text, after the characters before index `i`,
/// and the lexemes come in order without overlapping.
pub proof fn lemma_lexemes_from_ordered(s: Seq<char>, i: int)
    requires
        0 <= i <= s.len(),
    ensures
        ordered(lexemes_from(s, i)),
        forall|k: int|
            0 <= k < lexemes_from(s, i).len() ==> utf8_len(s.take(i)) <= (
            #[trigger] lexemes_from(s, i)[k]).start && lexemes_from(s, i)[k].end <= utf8_len(s),
    decreases s.len() - i,
{
    if i < s.len() {
        lemma_scan_at_bounded(s, i);
        let n = scan_at(s, i).1;
        lemma_lexemes_from_ordered(s, i + n);
        lemma_utf8_len_take_step(s, i);
        lemma_utf8_len_take_bound(s, i, i + 1);
        lemma_utf8_len_take_bound(s, i + 1, i + n);
        let rest = lexemes_from(s, i + n);
        let all = lexemes_from(s, i);
        if !(scan_at(s, i).0 is Blank) {
            assert(all == seq![all[0]] + rest);
            assert forall|k: int| 0 <= k < all.len() implies utf8_len(s.take(i)) <= (
            #[trigger] all[k]).start && all[k].end <= utf8_len(s) by {
                if k > 0 {
                    assert(all[k] == rest[k - 1]);
                }
            }
            assert forall|a: int, b: int| 0 <= a < b < all.len() implies #[trigger] all[a].end
                <= #[trigger] all[b].start by {
                assert(all[b] == rest[b - 1]);
                if a > 0 {
                    assert(all[a] == rest[a - 1]);
                }
            }
            assert forall|k: int| 0 <= k < all.len() implies all[k].start < all[k].end by {
                if k > 0 {
                    assert(all[k] == rest[k - 1]);
                }
            }
        } else {
            assert forall|k: int| 0 <= k < all.len() implies utf8_len(s.take(i)) <= (
            #[trigger] all[k]).start && all[k].end <= utf8_len(s) by {
                assert(all[k] == rest[k]);
            }
        }
    }
}

/// No lexeme is a `Whitespace` token: blanks are skipped.
pub proof fn lemma_lexemes_from_no_whitespace(s: Seq<char>, i: int)
    requires
        0 <= i <= s.len(),
    ensures
        forall|k: int|
            0 <= k < lexemes_from(s, i).len() ==> (#[trigger] lexemes_from(s, i)[k]).token
                != Ok::<TokenKind, Seq<char>>(TokenKind::Whitespace),
    decreases s.len() - i,
{
    if i < s.len() {
        lemma_scan_at_bounded(s, i);
        let n = scan_at(s, i).1;
        lemma_lexemes_from_no_whitespace(s, i + n);
        let all = lexemes_from(s, i);
        let rest = lexemes_from(s, i + n);
        assert forall|k: int| 0 <= k < all.len() implies (#[trigger] all[k]).token != Ok::<
            TokenKind,
            Seq<char>,
        >(TokenKind::Whitespace) by {
            if !(scan_at(s, i).0 is Blank) && k > 0 {
                assert(all[k] == rest[k - 1]);
            } else if scan_at(s, i).0 is Blank {
                assert(all[k] == rest[k]);
            }
        }
    }
}

/// The lexemes of a text come in order without overlapping.
pub proof fn lemma_lexemes_ordered(s: Seq<char>)
    ensures
        ordered(lexemes(s)),
{
    lemma_lexemes_from_ordered(s, 0);
}

// ---------------------------------------------------------------------------
// The scanner.
// ---------------------------------------------------------------------------

/// A lexeme as the scanner hands it out: a token, or the text that starts no
/// token, and its byte span `start..end` in the document.
#[derive(Debug)]
pub struct Lexeme {
    pub result: Result<TokenType, String>,
    pub start: usize,
    pub end: usize,
}

impl View for Lexeme {
    type V = LexemeModel;

    open spec fn view(&self) -> LexemeModel {
        LexemeModel {
            token: match self.result {
                Ok(t) => Ok(t@),
                Err(text) => Err(text@),
            },
            start: self.start as nat,
            end: self.end as nat,
        }
    }
}

/// The models of a sequence of lexemes.
pub open spec fn lexeme_models(v: Seq<Lexeme>) -> Seq<LexemeModel> {
    v.map_values(|l: Lexeme| l@)
}

enum Step {
    Blank,
    Unknown,
    Token(TokenType),
}

spec fn step_model(step: Step) -> Scan {
    match step {
        Step::Blank => Scan::Blank,
        Step::Unknown => Scan::Unknown,
        Step::Token(t) => Scan::Token(t@),
    }
}

fn blank_char(c: char) -> (b: bool)
    ensures
        b == is_blank(c),
{
    c == ' ' || c == '\t' || c == '\r' || c == '\x0C'
}

fn letter_char(c: char) -> (b: bool)
    ensures
        b == is_letter(c),
{
    let u = c as u32;
    (97 <= u && u <= 122) || (65 <= u && u <= 90) || u == 95
}

fn digit_char(c: char) -> (b: bool)
    ensures
        b == is_digit(c),
{
    let u = c as u32;
    48 <= u && u <= 57
}

fn name_char(c: char) -> (b: bool)
    ensures
        b == is_name_char(c),
{
    letter_char(c) || digit_char(c) || c == '-'
}

fn name_run_end(chars: &Vec<char>, i: usize) -> (j: usize)
    requires
        i <= chars@.len(),
    ensures
        j == i + name_run(chars@, i as int),
{
    let mut j = i;
    while j < chars.len() && name_char(chars[j])
        invariant
            i <= j <= chars@.len(),
            name_run(chars@, i as int) == (j - i) + name_run(chars@, j as int),
        decreases chars@.len() - j,
    {
        j = j + 1;
    }
    j
}

fn digit_run_end(chars: &Vec<char>, i: usize) -> (j: usize)
    requires
        i <= chars@.len(),
    ensures
        j == i + digit_run(chars@, i as int),
{
    let mut j = i;
    while j < chars.len() && digit_char(chars[j])
        invariant
            i <= j <= chars@.len(),
            digit_run(chars@, i as int) == (j - i) + digit_run(chars@, j as int),
        decreases chars@.len() - j,
    {
        j = j + 1;
    }
    j
}

fn string_run_end(chars: &Vec<char>, i: usize) -> (j: usize)
    requires
        i <= chars@.len(),
    ensures
        j == i + string_run(chars@, i as int),
{
    let mut j = i;
    while j < chars.len() && chars[j] != '"' && chars[j] != '\n'
        invariant
            i <= j <= chars@.len(),
            string_run(chars@, i as int) == (j - i) + string_run(chars@, j as int),
        decreases chars@.len() - j,
    {
        j = j + 1;
    }
    j
}

/// The characters `from..to` as a `String`.
fn text_between(chars: &Vec<char>, from: usize, to: usize) -> (text: String)
    requires
        from <= to <= chars@.len(),
    ensures
        text@ == chars@.subrange(from as int, to as int),
{
    let mut text = String::new();
    let mut k = from;
    while k < to
        invariant
            from <= k <= to <= chars@.len(),
            text@ == chars@.subrange(from as int, k as int),
        decreases to - k,
    {
        push_char(&mut text, chars[k]);
        k = k + 1;
        assert(text@ =~= chars@.subrange(from as int, k as int));
    }
    text
}

fn is_include_word(chars: &Vec<char>, from: usize, to: usize) -> (b: bool)
    requires
        from <= to <= chars@.len(),
    ensures
        b == (chars@.subrange(from as int, to as int) == include_word()),
{
    let ghost text = chars@.subrange(from as int, to as int);
    if to - from != 7 {
        assert(text.len() != include_word().len());
        return false;
    }
    let b = chars[from] == 'i' && chars[from + 1] == 'n' && chars[from + 2] == 'c' && chars[from
        + 3] == 'l' && chars[from + 4] == 'u' && chars[from + 5] == 'd' && chars[from + 6] == 'e';
    if b {
        assert(text =~= include_word());
    } else {
        assert(text != include_word()) by {
            if text == include_word() {
                assert(text[0] == include_word()[0]);
                assert(text[1] == include_word()[1]);
                assert(text[2] == include_word()[2]);
                assert(text[3] == include_word()[3]);
                assert(text[4] == include_word()[4]);
                assert(text[5] == include_word()[5]);
                assert(text[6] == include_word()[6]);
            }
        }
    }
    b
}

fn single_char(c: char) -> (t: Option<TokenType>)
    ensures
        match t {
            Some(t) => single_char_token(c) == Some(t@),
            None => single_char_token(c) is None,
        },
{
    if c == '\n' {
        Some(TokenType::Newline)
    } else if c == '+' {
        Some(TokenType::Plus)
    } else if c == '-' {
        Some(TokenType::Minus)
    } else if c == '*' {
        Some(TokenType::Multiply)
    } else if c == '/' {
        Some(TokenType::Divide)
    } else if c == '=' {
        Some(TokenType::Equals)
    } else if c == ':' {
        Some(TokenType::Colon)
    } else if c == ',' {
        Some(TokenType::Comma)
    } else if c == '(' {
        Some(TokenType::LeftParen)
    } else if c == ')' {
        Some(TokenType::RightParen)
    } else if c == '[' {
        Some(TokenType::LeftBracket)
    } else if c == ']' {
        Some(TokenType::RightBracket)
    } else if c == '{' {
        Some(TokenType::LeftBrace)
    } else if c == '}' {
        Some(TokenType::RightBrace)
    } else {
        None
    }
}

fn step_at(chars: &Vec<char>, i: usize) -> (res: (Step, usize))
    requires
        i < chars@.len(),
    ensures
        step_model(res.0) == scan_at(chars@, i as int).0,
        res.1 == scan_at(chars@, i as int).1,
{
    let len = chars.len();
    proof {
        lemma_runs_bounded(chars@, i as int + 1);
    }
    let c = chars[i];
    if blank_char(c) {
        (Step::Blank, 1)
    } else if letter_char(c) {
        let j = name_run_end(chars, i + 1);
        if is_include_word(chars, i, j) {
            (Step::Token(TokenType::Include), j - i)
        } else {
            (Step::Token(TokenType::Identifier(text_between(chars, i, j))), j - i)
        }
    } else if digit_char(c) {
        let j = digit_run_end(chars, i + 1);
        if len - j >= 2 && chars[j] == '.' && digit_char(chars[j + 1]) {
            proof {
                lemma_runs_bounded(chars@, j as int + 2);
            }
            let k = digit_run_end(chars, j + 2);
            (Step::Token(TokenType::Number(text_between(chars, i, k))), k - i)
        } else {
            (Step::Token(TokenType::Number(text_between(chars, i, j))), j - i)
        }
    } else if c == '"' {
        let j = string_run_end(chars, i + 1);
        if j < chars.len() && chars[j] == '"' {
            (Step::Token(TokenType::String(text_between(chars, i + 1, j))), j + 1 - i)
        } else {
            (Step::Unknown, 1)
        }
    } else if c == '<' {
        if i + 1 < chars.len() && chars[i + 1] == '=' {
            (Step::Token(TokenType::LessThanEquals), 2)
        } else {
            (Step::Token(TokenType::LessThan), 1)
        }
    } else if c == '>' {
        if i + 1 < chars.len() && chars[i + 1] == '=' {
            (Step::Token(TokenType::GreaterThanEquals), 2)
        } else {
            (Step::Token(TokenType::GreaterThan), 1)
        }
    } else {
        match single_char(c) {
            Some(t) => (Step::Token(t), 1),
            None => (Step::Unknown, 1),
        }
    }
}

fn char_byte_width(c: char) -> (w: usize)
    ensures
        w == char_width(c),
{
    let u = c as u32;
    if u <= 0x7F {
        1
    } else if u <= 0x7FF {
        2
    } else if u <= 0xFFFF {
        3
    } else {
        4
    }
}

/// The byte offset of character `to`, given that of character `from`.
fn byte_offset(chars: &Vec<char>, from: usize, to: usize, pos: usize) -> (end: usize)
    requires
        from <= to <= chars@.len(),
        pos == utf8_len(chars@.take(from as int)),
        utf8_len(chars@) <= usize::MAX,
    ensures
        end == utf8_len(chars@.take(to as int)),
{
    let mut k = from;
    let mut end = pos;
    while k < to
        invariant
            from <= k <= to <= chars@.len(),
            end == utf8_len(chars@.take(k as int)),
            utf8_len(chars@) <= usize::MAX,
        decreases to - k,
    {
        proof {
            lemma_utf8_len_take_step(chars@, k as int);
            lemma_utf8_len_take_bound(chars@, k as int + 1, k as int + 1);
        }
        end = end + char_byte_width(chars[k]);
        k = k + 1;
    }
    end
}

/// Splits a document into its lexemes: each token of the Organic grammar,
/// and each character that starts none, with its byte span.  Blanks are
/// skipped; line breaks are `Newline` tokens.
pub fn scan(doc_text: &str) -> (result: Vec<Lexeme>)
    ensures
        lexeme_models(result@) == lexemes(doc_text@),
{
    let chars = text_chars(doc_text);
    let total = doc_text.as_bytes().len();
    proof {
        lemma_utf8_len_encoding(chars@);
    }
    let mut result: Vec<Lexeme> = Vec::new();
    let mut i: usize = 0;
    let mut pos: usize = 0;
    assert(chars@.take(0) =~= Seq::<char>::empty());
    while i < chars.len()
        invariant
            i <= chars@.len(),
            chars@ == doc_text@,
            utf8_len(chars@) == total,
            pos == utf8_len(chars@.take(i as int)),
            lexeme_models(result@) + lexemes_from(chars@, i as int) == lexemes(chars@),
        decreases chars@.len() - i,
    {
        proof {
            lemma_scan_at_bounded(chars@, i as int);
        }
        let (step, n) = step_at(&chars, i);
        let end = byte_offset(&chars, i, i + n, pos);
        let ghost before = lexeme_models(result@);
        match step {
            Step::Blank => {},
            Step::Unknown => {
                let culprit = text_between(&chars, i, i + n);
                result.push(Lexeme { result: Err(culprit), start: pos, end });
            },
            Step::Token(t) => {
                result.push(Lexeme { result: Ok(t), start: pos, end });
            },
        }
        assert(lexeme_models(result@) + lexemes_from(chars@, (i + n) as int) =~= lexemes(chars@))
            by {
            assert(lexeme_models(result@) =~= before + (lexeme_models(result@).skip(
                before.len() as int,
            )));
        }
        i = i + n;
        pos = end;
    }
    assert(lexemes_from(chars@, i as int) =~= Seq::<LexemeModel>::empty());
    assert(lexeme_models(result@) =~= lexemes(chars@));
    result
}

} // verus!
