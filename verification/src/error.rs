//! The errors of code generation, and the text that describes each.

use vstd::prelude::*;
use crate::text::{decimal, decimal_text};

verus! {

/// What can go wrong while user sections are captured or written.
#[derive(Debug, Clone, PartialEq, Eq)]
pub enum CodeGenError {
    /// Reading or writing failed; the text is the cause as the caller met it.
    Io(String),
    /// The file at `path` could not be read for capture.
    CaptureFailed { path: String, message: String },
    /// An end marker stands where no section of its kind is open, or a partial
    /// marker carries a number that is out of range.
    InvalidSection(String),
    /// A begin marker stands at line `line` while `section` is still open.
    NestedSection { line: usize, section: String },
    /// The end marker at line `line` closes `found`, but `expected` is open.
    MismatchedSection { line: usize, expected: String, found: String },
    /// The text ends while the named section is still open.
    UnclosedSection(String),
    /// No section of that name is defined.
    UnknownSection(String),
    /// Any other failure, by its description.
    Other(String),
}

/// A [`CodeGenError`] with its texts as character sequences.
pub enum ErrorView {
    Io(Seq<char>),
    CaptureFailed { path: Seq<char>, message: Seq<char> },
    InvalidSection(Seq<char>),
    NestedSection { line: nat, section: Seq<char> },
    MismatchedSection { line: nat, expected: Seq<char>, found: Seq<char> },
    UnclosedSection(Seq<char>),
    UnknownSection(Seq<char>),
    Other(Seq<char>),
}

impl View for CodeGenError {
    type V = ErrorView;

    open spec fn view(&self) -> ErrorView {
        match *self {
            CodeGenError::Io(m) => ErrorView::Io(m@),
            CodeGenError::CaptureFailed { path, message } => ErrorView::CaptureFailed {
                path: path@,
                message: message@,
            },
            CodeGenError::InvalidSection(m) => ErrorView::InvalidSection(m@),
            CodeGenError::NestedSection { line, section } => ErrorView::NestedSection {
                line: line as nat,
                section: section@,
            },
            CodeGenError::MismatchedSection { line, expected, found } => {
                ErrorView::MismatchedSection { line: line as nat, expected: expected@, found: found@ }
            },
            CodeGenError::UnclosedSection(s) => ErrorView::UnclosedSection(s@),
            CodeGenError::UnknownSection(s) => ErrorView::UnknownSection(s@),
            CodeGenError::Other(m) => ErrorView::Other(m@),
        }
    }
}

impl ErrorView {
    /// The sentence that describes the error.
    pub open spec fn message(self) -> Seq<char> {
        match self {
            ErrorView::Io(m) => "IO error: "@ + m,
            ErrorView::CaptureFailed { path, message } => {
                "Failed to capture user section from file: "@ + path
            },
            ErrorView::InvalidSection(m) => "Invalid user section: "@ + m,
            ErrorView::NestedSection { line, section } => "Nested user section at line "@ + decimal(
                line,
            ) + ": already in section '"@ + section + "'"@,
            ErrorView::MismatchedSection { line, expected, found } => {
                "Mismatched user section at line "@ + decimal(line) + ": expected '"@ + expected
                    + "', found '"@ + found + "'"@
            },
            ErrorView::UnclosedSection(s) => "Unclosed user section at end of file: '"@ + s + "'"@,
            ErrorView::UnknownSection(s) => "Unknown user section: '"@ + s + "'"@,
            ErrorView::Other(m) => "Other error: "@ + m,
        }
    }
}

impl CodeGenError {
    /// The sentence that describes the error.
    pub fn message(&self) -> (out: String)
        ensures
            out@ == self@.message(),
    {
        match self {
            CodeGenError::Io(m) => "IO error: ".to_owned().concat(m.as_str()),
            CodeGenError::CaptureFailed { path, message } => {
                "Failed to capture user section from file: ".to_owned().concat(path.as_str())
            },
            CodeGenError::InvalidSection(m) => "Invalid user section: ".to_owned().concat(
                m.as_str(),
            ),
            CodeGenError::NestedSection { line, section } => {
                let number = decimal_text(*line as u64);
                "Nested user section at line ".to_owned().concat(number.as_str()).concat(
                    ": already in section '",
                ).concat(section.as_str()).concat("'")
            },
            CodeGenError::MismatchedSection { line, expected, found } => {
                let number = decimal_text(*line as u64);
                "Mismatched user section at line ".to_owned().concat(number.as_str()).concat(
                    ": expected '",
                ).concat(expected.as_str()).concat("', found '").concat(found.as_str()).concat("'")
            },
            CodeGenError::UnclosedSection(s) => "Unclosed user section at end of file: '".to_owned(
            ).concat(s.as_str()).concat("'"),
            CodeGenError::UnknownSection(s) => "Unknown user section: '".to_owned().concat(
                s.as_str(),
            ).concat("'"),
            CodeGenError::Other(m) => "Other error: ".to_owned().concat(m.as_str()),
        }
    }
}

} // verus!
