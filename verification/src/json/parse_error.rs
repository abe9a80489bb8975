//! What went wrong when reading a typed value out of a JSON document.

use vstd::prelude::*;

use super::path::{lifted_path, valid_key, Path};

verus! {

/// The kind of a parse failure.
#[derive(Clone, Copy, Debug, PartialEq, Eq, Structural)]
pub enum ParseErrorKind {
    UnexpectedType,
    ValidationFailed,
    FieldAbsent,
}

/// A parse failure: its kind, where in the document it happened, and what
/// was expected there.
#[derive(Debug)]
pub struct ParseError {
    pub kind: ParseErrorKind,
    pub path: Path,
    pub expected: String,
}

/// The content of a parse failure.
pub struct ParseFailure {
    pub kind: ParseErrorKind,
    pub path: Seq<char>,
    pub expected: Seq<char>,
}

pub type ParseResult<T> = Result<T, ParseError>;

impl View for ParseError {
    type V = ParseFailure;

    open spec fn view(&self) -> ParseFailure {
        ParseFailure { kind: self.kind, path: self.path@, expected: self.expected@ }
    }
}

impl ParseFailure {
    /// The same failure seen from one level up, under the key.
    pub open spec fn lifted(self, key: Seq<char>) -> ParseFailure {
        ParseFailure { path: lifted_path(key, self.path), ..self }
    }
}

/// The text that opens the report of each kind of failure.
pub open spec fn kind_text(kind: ParseErrorKind) -> Seq<char> {
    match kind {
        ParseErrorKind::UnexpectedType => "Unexpected type, "@,
        ParseErrorKind::ValidationFailed => "Validation failed, "@,
        ParseErrorKind::FieldAbsent => "Field absent, "@,
    }
}

/// The report of a failure, as its text form gives it.
pub open spec fn failure_text(failure: ParseFailure) -> Seq<char> {
    kind_text(failure.kind) + "expected \""@ + failure.expected + "\", "@ + "path \""@
        + failure.path + "\""@
}

impl ParseError {
    /// The same error seen from one level up, under the key.
    pub fn lift(self, key: &str) -> (lifted: Self)
        requires
            valid_key(key@),
        ensures
            lifted@ == self@.lifted(key@),
    {
        ParseError { path: self.path.lift(key), ..self }
    }

    /// The report of the error as text.
    pub fn to_string(&self) -> (text: String)
        ensures
            text@ == failure_text(self@),
    {
        let mut text = match self.kind {
            ParseErrorKind::UnexpectedType => String::from_str("Unexpected type, "),
            ParseErrorKind::ValidationFailed => String::from_str("Validation failed, "),
            ParseErrorKind::FieldAbsent => String::from_str("Field absent, "),
        };
        text.append("expected \"");
        text.append(self.expected.as_str());
        text.append("\", ");
        text.append("path \"");
        let path = self.path.to_string();
        text.append(path.as_str());
        text.append("\"");
        text
    }
}

} // verus!
