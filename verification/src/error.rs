//! The errors that the stages report. The first error aborts the pipeline.

use vstd::prelude::*;
use vstd::string::*;
use crate::text::{decimal, push_usize};

verus! {

/// An error of one stage, with the source line it was found on.
#[derive(Debug)]
pub enum Error {
    InvalidToken { line: usize, msg: String },
    InvalidIdentifier { line: usize, msg: String },
    SyntaxError { line: usize, msg: String },
    SemanticError { line: usize, msg: String },
}

/// The kind of an error, without its payload.
#[derive(Debug, Clone, Copy, PartialEq, Eq, Structural)]
pub enum ErrorType {
    InvalidToken,
    InvalidIdentifier,
    SyntaxError,
    SemanticError,
}

/// The mathematical content of an error.
pub struct ErrorView {
    pub kind: ErrorType,
    pub line: usize,
    pub msg: Seq<char>,
}

impl View for Error {
    type V = ErrorView;

    open spec fn view(&self) -> ErrorView {
        match self {
            Error::InvalidToken { line, msg } => ErrorView {
                kind: ErrorType::InvalidToken,
                line: *line,
                msg: msg@,
            },
            Error::InvalidIdentifier { line, msg } => ErrorView {
                kind: ErrorType::InvalidIdentifier,
                line: *line,
                msg: msg@,
            },
            Error::SyntaxError { line, msg } => ErrorView {
                kind: ErrorType::SyntaxError,
                line: *line,
                msg: msg@,
            },
            Error::SemanticError { line, msg } => ErrorView {
                kind: ErrorType::SemanticError,
                line: *line,
                msg: msg@,
            },
        }
    }
}

/// A syntax error as a value of the model.
pub open spec fn syntax_error(line: usize, msg: Seq<char>) -> ErrorView {
    ErrorView { kind: ErrorType::SyntaxError, line, msg }
}

/// A semantic error as a value of the model.
pub open spec fn semantic_error(line: usize, msg: Seq<char>) -> ErrorView {
    ErrorView { kind: ErrorType::SemanticError, line, msg }
}

/// The line a reader sees for an error.
pub open spec fn error_text(e: ErrorView) -> Seq<char> {
    match e.kind {
        ErrorType::InvalidToken => "[line "@ + decimal(e.line as nat) + "] Error at '"@ + e.msg
            + "': Invalid Token"@,
        ErrorType::InvalidIdentifier => "[line "@ + decimal(e.line as nat) + "] Error at '"@
            + e.msg + "': Invalid Identifier"@,
        ErrorType::SyntaxError => "[line "@ + decimal(e.line as nat) + "] Syntax Error: "@
            + e.msg,
        ErrorType::SemanticError => "[line "@ + decimal(e.line as nat) + "] Semantic Error: "@
            + e.msg,
    }
}

/// Builds the error of the given kind.
pub fn error(line: usize, msg: String, err_type: ErrorType) -> (e: Error)
    ensures
        e@ == (ErrorView { kind: err_type, line, msg: msg@ }),
{
    match err_type {
        ErrorType::InvalidIdentifier => Error::InvalidIdentifier { line, msg },
        ErrorType::InvalidToken => Error::InvalidToken { line, msg },
        ErrorType::SyntaxError => Error::SyntaxError { line, msg },
        ErrorType::SemanticError => Error::SemanticError { line, msg },
    }
}

impl Error {
    /// The kind of this error.
    pub fn kind(&self) -> (k: ErrorType)
        ensures
            k == self@.kind,
    {
        match self {
            Error::InvalidToken { .. } => ErrorType::InvalidToken,
            Error::InvalidIdentifier { .. } => ErrorType::InvalidIdentifier,
            Error::SyntaxError { .. } => ErrorType::SyntaxError,
            Error::SemanticError { .. } => ErrorType::SemanticError,
        }
    }

    /// The source line this error was found on.
    pub fn line(&self) -> (l: usize)
        ensures
            l == self@.line,
    {
        match self {
            Error::InvalidToken { line, .. } => *line,
            Error::InvalidIdentifier { line, .. } => *line,
            Error::SyntaxError { line, .. } => *line,
            Error::SemanticError { line, .. } => *line,
        }
    }

    /// The message of this error, without the line and the kind.
    pub fn message(&self) -> (m: &String)
        ensures
            m@ == self@.msg,
    {
        match self {
            Error::InvalidToken { msg, .. } => msg,
            Error::InvalidIdentifier { msg, .. } => msg,
            Error::SyntaxError { msg, .. } => msg,
            Error::SemanticError { msg, .. } => msg,
        }
    }

    /// The line a reader sees for this error.
    pub fn to_text(&self) -> (s: String)
        ensures
            s@ == error_text(self@),
    {
        let mut s = String::from_str("[line ");
        push_usize(&mut s, self.line());
        match self {
            Error::InvalidToken { msg, .. } => {
                s.append("] Error at '");
                s.append(msg.as_str());
                s.append("': Invalid Token");
            },
            Error::InvalidIdentifier { msg, .. } => {
                s.append("] Error at '");
                s.append(msg.as_str());
                s.append("': Invalid Identifier");
            },
            Error::SyntaxError { msg, .. } => {
                s.append("] Syntax Error: ");
                s.append(msg.as_str());
            },
            Error::SemanticError { msg, .. } => {
                s.append("] Semantic Error: ");
                s.append(msg.as_str());
            },
        }
        s
    }
}

} // verus!
