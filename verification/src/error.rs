//! Source locations, spans and the diagnostic types shared by every stage.

use vstd::prelude::*;

verus! {

/// A location in the query text: 1-based line and column, 0-based offset
/// counted in characters.
#[derive(Clone, Copy, Debug, PartialEq, Eq, Structural)]
pub struct Position {
    pub line: usize,
    pub column: usize,
    pub offset: usize,
}

/// The ghost counterpart of [`Position`], over unbounded integers.
pub struct SpecPos {
    pub line: int,
    pub column: int,
    pub offset: int,
}

impl View for Position {
    type V = SpecPos;

    open spec fn view(&self) -> SpecPos {
        SpecPos { line: self.line as int, column: self.column as int, offset: self.offset as int }
    }
}

impl Position {
    pub fn new(line: usize, column: usize, offset: usize) -> (p: Position)
        ensures
            p == (Position { line, column, offset }),
    {
        Position { line, column, offset }
    }
}

/// A half-open source range `[start, end)`.
#[derive(Clone, Copy, Debug, PartialEq, Eq, Structural)]
pub struct Span {
    pub start: Position,
    pub end: Position,
}

/// The ghost counterpart of [`Span`].
pub struct SpecSpan {
    pub start: SpecPos,
    pub end: SpecPos,
}

impl View for Span {
    type V = SpecSpan;

    open spec fn view(&self) -> SpecSpan {
        SpecSpan { start: self.start@, end: self.end@ }
    }
}

impl Span {
    pub fn new(start: Position, end: Position) -> (s: Span)
        ensures
            s == (Span { start, end }),
    {
        Span { start, end }
    }

    /// A zero-width span at one position.
    pub fn single(p: Position) -> (s: Span)
        ensures
            s == (Span { start: p, end: p }),
    {
        Span { start: p, end: p }
    }
}

/// An error found while lexing, parsing or validating a query.
#[derive(Debug, Clone, PartialEq)]
pub enum LintError {
    /// The lexer could not turn the text into tokens; fatal for the query.
    LexerError { position: Position, message: String },
    /// The parser could not build an expression; fatal for the query.
    ParserError { span: Span, message: String },
    /// A wildcard placed where it is disallowed (a leading `*`).
    InvalidWildcardPlacement { span: Span },
    /// A generic validation finding with a free-text message.
    ValidationError { span: Span, message: String },
    /// A finding about a malformed or unreasonable range.
    RangeValidationError { span: Span, message: String },
}

/// The ghost counterpart of [`LintError`].
pub enum SpecLintError {
    LexerError { position: SpecPos, message: Seq<char> },
    ParserError { span: SpecSpan, message: Seq<char> },
    InvalidWildcardPlacement { span: SpecSpan },
    ValidationError { span: SpecSpan, message: Seq<char> },
    RangeValidationError { span: SpecSpan, message: Seq<char> },
}

impl View for LintError {
    type V = SpecLintError;

    open spec fn view(&self) -> SpecLintError {
        match self {
            LintError::LexerError { position, message } => SpecLintError::LexerError {
                position: position@,
                message: message@,
            },
            LintError::ParserError { span, message } => SpecLintError::ParserError {
                span: span@,
                message: message@,
            },
            LintError::InvalidWildcardPlacement { span } => SpecLintError::InvalidWildcardPlacement {
                span: span@,
            },
            LintError::ValidationError { span, message } => SpecLintError::ValidationError {
                span: span@,
                message: message@,
            },
            LintError::RangeValidationError { span, message } => SpecLintError::RangeValidationError {
                span: span@,
                message: message@,
            },
        }
    }
}

/// A warning: the query stays valid, but is likely slow or surprising.
#[derive(Debug, Clone, PartialEq)]
pub enum LintWarning {
    PerformanceWarning { span: Span, message: String },
}

/// The ghost counterpart of [`LintWarning`].
pub enum SpecLintWarning {
    PerformanceWarning { span: SpecSpan, message: Seq<char> },
}

impl View for LintWarning {
    type V = SpecLintWarning;

    open spec fn view(&self) -> SpecLintWarning {
        match self {
            LintWarning::PerformanceWarning { span, message } => SpecLintWarning::PerformanceWarning {
                span: span@,
                message: message@,
            },
        }
    }
}

/// One entry of the ordered report: an error or a warning.
#[derive(Debug, Clone, PartialEq)]
pub enum Diagnostic {
    Error(LintError),
    Warning(LintWarning),
}

/// The ghost counterpart of [`Diagnostic`].
pub enum SpecDiagnostic {
    Error(SpecLintError),
    Warning(SpecLintWarning),
}

impl View for Diagnostic {
    type V = SpecDiagnostic;

    open spec fn view(&self) -> SpecDiagnostic {
        match self {
            Diagnostic::Error(e) => SpecDiagnostic::Error(e@),
            Diagnostic::Warning(w) => SpecDiagnostic::Warning(w@),
        }
    }
}

/// The result type of the fatal stages (lexing and parsing).
pub type LintResult<T> = Result<T, LintError>;

} // verus!
