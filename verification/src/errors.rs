use vstd::prelude::*;

use crate::analyzer::organic_type::{OrganicType, TypeModel};
use crate::lexer::doc_loc::DocLoc;
use crate::lexer::source_loc::{MiniLoc, SourceLoc, SourceLocModel};
use crate::lexer::token::{Token, TokenKind, TokenModel, TokenType};
use crate::parser::ast::Symbol;
use crate::text::{decimal, push_decimal, push_str};

verus! {

/// Any error that the language server reports on a document.
#[derive(Debug)]
pub enum LspError {
    LspLexerError(LexerError),
    LspParserError(ParserError),
    LspAnalyzerError(AnalyzerError),
}

/// What the lexer reports besides its tokens.
#[derive(Debug)]
pub enum LexerError {
    /// A byte offset or length reached past `u32::MAX`; lexing stopped there.
    FileTooBig { size: usize, line_num: u32 },
    /// Text that starts no token.
    UnknownToken { culprit: String, source_loc: SourceLoc },
}

/// What the parser reports when the tokens do not form a statement.
#[derive(Debug)]
pub enum ParserError {
    /// A token after the end of the statement.
    ExtraToken { token: Token },
    /// A place where no token could be read.
    FictionalToken { location: MiniLoc },
    /// The tokens ended too soon; `expected` lists what could have come.
    UnexpectedEOF { location: MiniLoc, expected: Vec<String> },
    /// A token that cannot stand where it stands; `expected` lists what could.
    WrongToken { token: Token, expected: Vec<String> },
}

/// What the analyzer reports, with the token that it is about.
#[derive(Debug)]
pub struct AnalyzerError {
    pub typ: AnalyzerErrorType,
    pub offender: Token,
}

/// The kinds of analyzer errors.
#[derive(Debug)]
#[allow(inconsistent_fields)]
pub enum AnalyzerErrorType {
    ArityMismatch { fn_name: Symbol, expected: u32, got: u32 },
    BadInternalState,
    DuplicateVar,
    NoSuchFn,
    NoSuchVariable,
    TypeMismatch { expected: OrganicType, got: OrganicType },
    VarCannotInitInTermsOfSelf,
}

/// The mathematical content of a [`LexerError`].
pub enum LexerErrorModel {
    FileTooBig { size: usize, line_num: u32 },
    UnknownToken { culprit: Seq<char>, source_loc: SourceLocModel },
}

/// The mathematical content of a [`ParserError`].
pub enum ParserErrorModel {
    ExtraToken { token: TokenModel },
    FictionalToken { location: MiniLoc },
    UnexpectedEOF { location: MiniLoc, expected: Seq<Seq<char>> },
    WrongToken { token: TokenModel, expected: Seq<Seq<char>> },
}

/// The mathematical content of an [`AnalyzerErrorType`].
#[allow(inconsistent_fields)]
pub enum AnalyzerErrorTypeModel {
    ArityMismatch { fn_name: (Seq<char>, TokenModel), expected: u32, got: u32 },
    BadInternalState,
    DuplicateVar,
    NoSuchFn,
    NoSuchVariable,
    TypeMismatch { expected: TypeModel, got: TypeModel },
    VarCannotInitInTermsOfSelf,
}

/// The mathematical content of an [`AnalyzerError`].
pub struct AnalyzerErrorModel {
    pub typ: AnalyzerErrorTypeModel,
    pub offender: TokenModel,
}

/// The mathematical content of an [`LspError`].
pub enum LspErrorModel {
    Lexer(LexerErrorModel),
    Parser(ParserErrorModel),
    Analyzer(AnalyzerErrorModel),
}

/// The views of some strings.
pub open spec fn string_views(strings: Seq<String>) -> Seq<Seq<char>> {
    strings.map_values(|s: String| s@)
}

impl View for LexerError {
    type V = LexerErrorModel;

    open spec fn view(&self) -> LexerErrorModel {
        match self {
            LexerError::FileTooBig { size, line_num } => LexerErrorModel::FileTooBig {
                size: *size,
                line_num: *line_num,
            },
            LexerError::UnknownToken { culprit, source_loc } => LexerErrorModel::UnknownToken {
                culprit: culprit@,
                source_loc: source_loc@,
            },
        }
    }
}

impl View for ParserError {
    type V = ParserErrorModel;

    open spec fn view(&self) -> ParserErrorModel {
        match self {
            ParserError::ExtraToken { token } => ParserErrorModel::ExtraToken { token: token@ },
            ParserError::FictionalToken { location } => ParserErrorModel::FictionalToken {
                location: *location,
            },
            ParserError::UnexpectedEOF { location, expected } => ParserErrorModel::UnexpectedEOF {
                location: *location,
                expected: string_views(expected@),
            },
            ParserError::WrongToken { token, expected } => ParserErrorModel::WrongToken {
                token: token@,
                expected: string_views(expected@),
            },
        }
    }
}

impl View for AnalyzerErrorType {
    type V = AnalyzerErrorTypeModel;

    open spec fn view(&self) -> AnalyzerErrorTypeModel {
        match self {
            AnalyzerErrorType::ArityMismatch { fn_name, expected, got } =>
                AnalyzerErrorTypeModel::ArityMismatch {
                    fn_name: fn_name@,
                    expected: *expected,
                    got: *got,
                },
            AnalyzerErrorType::BadInternalState => AnalyzerErrorTypeModel::BadInternalState,
            AnalyzerErrorType::DuplicateVar => AnalyzerErrorTypeModel::DuplicateVar,
            AnalyzerErrorType::NoSuchFn => AnalyzerErrorTypeModel::NoSuchFn,
            AnalyzerErrorType::NoSuchVariable => AnalyzerErrorTypeModel::NoSuchVariable,
            AnalyzerErrorType::TypeMismatch { expected, got } => AnalyzerErrorTypeModel::TypeMismatch {
                expected: expected@,
                got: got@,
            },
            AnalyzerErrorType::VarCannotInitInTermsOfSelf =>
                AnalyzerErrorTypeModel::VarCannotInitInTermsOfSelf,
        }
    }
}

impl View for AnalyzerError {
    type V = AnalyzerErrorModel;

    open spec fn view(&self) -> AnalyzerErrorModel {
        AnalyzerErrorModel { typ: self.typ@, offender: self.offender@ }
    }
}

impl View for LspError {
    type V = LspErrorModel;

    open spec fn view(&self) -> LspErrorModel {
        match self {
            LspError::LspLexerError(e) => LspErrorModel::Lexer(e@),
            LspError::LspParserError(e) => LspErrorModel::Parser(e@),
            LspError::LspAnalyzerError(e) => LspErrorModel::Analyzer(e@),
        }
    }
}

/// A place in a document as an editor counts it: a line and a character
/// within it, both counted from 0.
#[derive(Debug, Clone, Copy, PartialEq, Eq)]
pub struct Position {
    pub line: u32,
    pub character: u32,
}

/// The stretch of a document between two positions.
#[derive(Debug, Clone, Copy, PartialEq, Eq)]
pub struct Range {
    pub start: Position,
    pub end: Position,
}

/// How serious a diagnostic is.
#[derive(Debug, Clone, Copy, PartialEq, Eq)]
pub enum DiagnosticSeverity {
    Error,
    Warning,
    Information,
    Hint,
}

/// A message for the editor about a stretch of a document.
#[derive(Debug)]
pub struct Diagnostic {
    pub range: Range,
    pub severity: Option<DiagnosticSeverity>,
    pub message: String,
}

/// The stretch that a location covers, on its own line: lines and columns
/// counted from 1 become positions counted from 0.
pub open spec fn range_of(loc: SourceLocModel) -> Range {
    Range {
        start: Position { line: (loc.line - 1) as u32, character: (loc.column - 1) as u32 },
        end: Position {
            line: (loc.line - 1) as u32,
            character: (loc.column - 1 + loc.length) as u32,
        },
    }
}

/// The one character at a line and column (counted from 1).
pub open spec fn mini_range(location: MiniLoc) -> Range {
    range_of(
        SourceLocModel {
            uri: Seq::empty(),
            pos: 0,
            line: location.line,
            column: location.column,
            length: 1,
        },
    )
}

/// A line and column that count from 1.
pub open spec fn mini_is_placed(location: MiniLoc) -> bool {
    location.line >= 1 && location.column >= 1
}

/// Whether every place that an error names can be shown to an editor.
pub open spec fn error_is_placed(error: LspErrorModel) -> bool {
    match error {
        LspErrorModel::Lexer(LexerErrorModel::FileTooBig { line_num, .. }) => line_num >= 1,
        LspErrorModel::Lexer(LexerErrorModel::UnknownToken { source_loc, .. }) => source_loc.wf(),
        LspErrorModel::Parser(ParserErrorModel::ExtraToken { token }) => token.source_loc.wf(),
        LspErrorModel::Parser(ParserErrorModel::FictionalToken { location }) => mini_is_placed(location),
        LspErrorModel::Parser(ParserErrorModel::UnexpectedEOF { location, .. }) => mini_is_placed(location),
        LspErrorModel::Parser(ParserErrorModel::WrongToken { token, .. }) => token.source_loc.wf(),
        LspErrorModel::Analyzer(e) => e.offender.source_loc.wf(),
    }
}

/// The stretch of the document that an error is shown on. A file too large
/// to lex is marked from its start to the line where lexing stopped.
pub open spec fn diagnostic_range(error: LspErrorModel) -> Range {
    match error {
        LspErrorModel::Lexer(LexerErrorModel::FileTooBig { line_num, .. }) => Range {
            start: Position { line: 0, character: 0 },
            end: Position { line: (line_num - 1) as u32, character: 0 },
        },
        LspErrorModel::Lexer(LexerErrorModel::UnknownToken { source_loc, .. }) => range_of(source_loc),
        LspErrorModel::Parser(ParserErrorModel::ExtraToken { token }) => range_of(token.source_loc),
        LspErrorModel::Parser(ParserErrorModel::FictionalToken { location }) => mini_range(location),
        LspErrorModel::Parser(ParserErrorModel::UnexpectedEOF { location, .. }) => mini_range(location),
        LspErrorModel::Parser(ParserErrorModel::WrongToken { token, .. }) => range_of(token.source_loc),
        LspErrorModel::Analyzer(e) => range_of(e.offender.source_loc),
    }
}

/// What `{:?}` writes for a token type.
pub uninterp spec fn token_kind_debug(kind: TokenKind) -> Seq<char>;

/// What `{:?}` writes for a token.
pub uninterp spec fn token_debug(token: TokenModel) -> Seq<char>;

/// What `{:?}` writes for a line and column: the struct's name and its
/// fields in decimal.
pub open spec fn mini_loc_debug(location: MiniLoc) -> Seq<char> {
    "MiniLoc { line: "@ + decimal(location.line as nat) + ", column: "@ + decimal(
        location.column as nat,
    ) + " }"@
}

/// What `{:?}` writes for a list of strings.
pub uninterp spec fn strings_debug(strings: Seq<Seq<char>>) -> Seq<char>;

/// What `{:?}` writes for a type.
pub uninterp spec fn type_debug(typ: TypeModel) -> Seq<char>;

/// The text of the message that an error is shown with.
pub open spec fn diagnostic_message(error: LspErrorModel) -> Seq<char> {
    match error {
        LspErrorModel::Lexer(LexerErrorModel::FileTooBig { size, .. }) =>
            "This file is too large!  organic-lsp can only handle values up to "@ + decimal(
                u32::MAX as nat,
            ) + " characters in size, but this file has at least "@ + decimal(size as nat)
                + " characters"@,
        LspErrorModel::Lexer(LexerErrorModel::UnknownToken { culprit, .. }) => "Unknown token: "@
            + culprit,
        LspErrorModel::Parser(ParserErrorModel::ExtraToken { token }) => "Token found after EOF: "@
            + token_kind_debug(token.token_type),
        LspErrorModel::Parser(ParserErrorModel::FictionalToken { location }) =>
            "Unparseable token type at location: "@ + mini_loc_debug(location),
        LspErrorModel::Parser(ParserErrorModel::UnexpectedEOF { location, expected }) =>
            "Unexpected EOF at location "@ + mini_loc_debug(location) + "\nExpected: $"@
                + strings_debug(expected),
        LspErrorModel::Parser(ParserErrorModel::WrongToken { token, expected }) =>
            "Wrong token for this context: "@ + token_debug(token) + "\nExpected: $"@
                + strings_debug(expected),
        LspErrorModel::Analyzer(e) => {
            let offender = token_kind_debug(e.offender.token_type);
            match e.typ {
                AnalyzerErrorTypeModel::ArityMismatch { fn_name, expected, got } => "Function `"@
                    + fn_name.0 + "` takes "@ + decimal(expected as nat) + " arguments, but got "@
                    + decimal(got as nat) + "."@,
                AnalyzerErrorTypeModel::BadInternalState => "Fatal internal error on `"@ + offender
                    + "`"@,
                AnalyzerErrorTypeModel::DuplicateVar => "Duplicate variable: "@ + offender,
                AnalyzerErrorTypeModel::NoSuchFn => "No such function: "@ + offender,
                AnalyzerErrorTypeModel::NoSuchVariable => "No such variable: "@ + offender,
                AnalyzerErrorTypeModel::TypeMismatch { expected, got } =>
                    "Could not match expected type `"@ + type_debug(expected)
                        + "` with actual type `"@ + type_debug(got) + "`, regarding value `"@
                        + offender + "`."@,
                AnalyzerErrorTypeModel::VarCannotInitInTermsOfSelf => "`"@ + offender
                    + "` cannot be defined in terms of itself"@,
            }
        },
    }
}

/// `format!("{:?}", ..)` on a token type: the text of its derived `Debug`.
#[verifier::external_body]
fn debug_token_type(token_type: &TokenType) -> (text: String)
    ensures
        text@ == token_kind_debug(token_type@),
{
    format!("{:?}", token_type)
}

/// `format!("{:?}", ..)` on a token: the text of its derived `Debug`.
#[verifier::external_body]
fn debug_token(token: &Token) -> (text: String)
    ensures
        text@ == token_debug(token@),
{
    format!("{:?}", token)
}

/// The text that `{:?}` writes for a line and column.
fn debug_mini_loc(location: MiniLoc) -> (text: String)
    ensures
        text@ == mini_loc_debug(location),
{
    let mut text = String::new();
    push_str(&mut text, "MiniLoc { line: ");
    push_decimal(&mut text, location.line as u64);
    push_str(&mut text, ", column: ");
    push_decimal(&mut text, location.column as u64);
    push_str(&mut text, " }");
    assert(text@ =~= mini_loc_debug(location));
    text
}

/// `format!("{:?}", ..)` on a list of strings: the `Debug` text of a `Vec`
/// of `String`.
#[verifier::external_body]
fn debug_strings(strings: &Vec<String>) -> (text: String)
    ensures
        text@ == strings_debug(string_views(strings@)),
{
    format!("{:?}", strings)
}

/// `format!("{:?}", ..)` on a type: the text of its derived `Debug`.
#[verifier::external_body]
fn debug_type(typ: &OrganicType) -> (text: String)
    ensures
        text@ == type_debug(typ@),
{
    format!("{:?}", typ)
}

/// The stretch that a location covers.
pub fn as_range(source_loc: &SourceLoc) -> (range: Range)
    requires
        source_loc@.wf(),
    ensures
        range == range_of(source_loc@),
{
    Range {
        start: Position { line: source_loc.line - 1, character: source_loc.column - 1 },
        end: Position {
            line: source_loc.line - 1,
            character: source_loc.column - 1 + source_loc.length,
        },
    }
}

/// The one character at a line and column.
pub fn as_range_mini(mini: MiniLoc) -> (range: Range)
    requires
        mini_is_placed(mini),
    ensures
        range == mini_range(mini),
{
    let doc_loc = DocLoc::new(String::new());
    as_range(&SourceLoc { line: mini.line, column: mini.column, length: 1, pos: 0, doc_loc })
}

/// Turns an error into a diagnostic for the editor: the stretch it is about,
/// its severity (always an error) and its message.
pub fn as_diagnostic(error: LspError) -> (diagnostic: Diagnostic)
    requires
        error_is_placed(error@),
    ensures
        diagnostic.range == diagnostic_range(error@),
        diagnostic.severity == Some(DiagnosticSeverity::Error),
        diagnostic.message@ == diagnostic_message(error@),
{
    let ghost model = error@;
    let mut message = String::new();
    let range = match error {
        LspError::LspLexerError(LexerError::FileTooBig { size, line_num }) => {
            push_str(
                &mut message,
                "This file is too large!  organic-lsp can only handle values up to ",
            );
            push_decimal(&mut message, 4294967295u64);
            push_str(&mut message, " characters in size, but this file has at least ");
            push_decimal(&mut message, size as u64);
            push_str(&mut message, " characters");
            Range {
                start: Position { line: 0, character: 0 },
                end: Position { line: line_num - 1, character: 0 },
            }
        },
        LspError::LspLexerError(LexerError::UnknownToken { culprit, source_loc }) => {
            push_str(&mut message, "Unknown token: ");
            push_str(&mut message, culprit.as_str());
            as_range(&source_loc)
        },
        LspError::LspParserError(ParserError::ExtraToken { token }) => {
            push_str(&mut message, "Token found after EOF: ");
            push_str(&mut message, debug_token_type(&token.token_type).as_str());
            as_range(&token.source_loc)
        },
        LspError::LspParserError(ParserError::FictionalToken { location }) => {
            push_str(&mut message, "Unparseable token type at location: ");
            push_str(&mut message, debug_mini_loc(location).as_str());
            as_range_mini(location)
        },
        LspError::LspParserError(ParserError::UnexpectedEOF { location, expected }) => {
            push_str(&mut message, "Unexpected EOF at location ");
            push_str(&mut message, debug_mini_loc(location).as_str());
            push_str(&mut message, "\nExpected: $");
            push_str(&mut message, debug_strings(&expected).as_str());
            as_range_mini(location)
        },
        LspError::LspParserError(ParserError::WrongToken { token, expected }) => {
            push_str(&mut message, "Wrong token for this context: ");
            push_str(&mut message, debug_token(&token).as_str());
            push_str(&mut message, "\nExpected: $");
            push_str(&mut message, debug_strings(&expected).as_str());
            as_range(&token.source_loc)
        },
        LspError::LspAnalyzerError(AnalyzerError { typ, offender }) => {
            match typ {
                AnalyzerErrorType::ArityMismatch { fn_name, expected, got } => {
                    push_str(&mut message, "Function `");
                    push_str(&mut message, fn_name.name.as_str());
                    push_str(&mut message, "` takes ");
                    push_decimal(&mut message, expected as u64);
                    push_str(&mut message, " arguments, but got ");
                    push_decimal(&mut message, got as u64);
                    push_str(&mut message, ".");
                },
                AnalyzerErrorType::BadInternalState => {
                    push_str(&mut message, "Fatal internal error on `");
                    push_str(&mut message, debug_token_type(&offender.token_type).as_str());
                    push_str(&mut message, "`");
                },
                AnalyzerErrorType::DuplicateVar => {
                    push_str(&mut message, "Duplicate variable: ");
                    push_str(&mut message, debug_token_type(&offender.token_type).as_str());
                },
                AnalyzerErrorType::NoSuchFn => {
                    push_str(&mut message, "No such function: ");
                    push_str(&mut message, debug_token_type(&offender.token_type).as_str());
                },
                AnalyzerErrorType::NoSuchVariable => {
                    push_str(&mut message, "No such variable: ");
                    push_str(&mut message, debug_token_type(&offender.token_type).as_str());
                },
                AnalyzerErrorType::TypeMismatch { expected, got } => {
                    push_str(&mut message, "Could not match expected type `");
                    push_str(&mut message, debug_type(&expected).as_str());
                    push_str(&mut message, "` with actual type `");
                    push_str(&mut message, debug_type(&got).as_str());
                    push_str(&mut message, "`, regarding value `");
                    push_str(&mut message, debug_token_type(&offender.token_type).as_str());
                    push_str(&mut message, "`.");
                },
                AnalyzerErrorType::VarCannotInitInTermsOfSelf => {
                    push_str(&mut message, "`");
                    push_str(&mut message, debug_token_type(&offender.token_type).as_str());
                    push_str(&mut message, "` cannot be defined in terms of itself");
                },
            }
            as_range(&offender.source_loc)
        },
    };
    assert(message@ =~= diagnostic_message(model));
    Diagnostic { range, severity: Some(DiagnosticSeverity::Error), message }
}

} // verus!
