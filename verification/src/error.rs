//! Errors surfaced across the frontend boundary.

use vstd::prelude::*;

verus! {

/// Errors surfaced across the frontend boundary.
///
/// Malformed input is reported rather than unwrapped: a panic would abort the
/// application with no message.
#[derive(Debug)]
pub enum Error {
    Read(String),
    Write(String),
    UnknownSheet(String),
    MalformedOp(String),
}

/// An error by its kind and its text.
pub enum ErrorView {
    Read(Seq<char>),
    Write(Seq<char>),
    UnknownSheet(Seq<char>),
    MalformedOp(Seq<char>),
}

impl View for Error {
    type V = ErrorView;

    open spec fn view(&self) -> ErrorView {
        match self {
            Error::Read(m) => ErrorView::Read(m@),
            Error::Write(m) => ErrorView::Write(m@),
            Error::UnknownSheet(name) => ErrorView::UnknownSheet(name@),
            Error::MalformedOp(m) => ErrorView::MalformedOp(m@),
        }
    }
}

/// The human-readable message of an error.
pub open spec fn error_text(e: ErrorView) -> Seq<char> {
    match e {
        ErrorView::Read(m) => "could not read workbook: "@ + m,
        ErrorView::Write(m) => "could not write workbook: "@ + m,
        ErrorView::UnknownSheet(name) => "unknown sheet: "@ + name,
        ErrorView::MalformedOp(m) => "malformed operation: "@ + m,
    }
}

impl Error {
    /// The human-readable message of this error.
    pub fn to_string(&self) -> (res: String)
        ensures
            res@ == error_text(self@),
    {
        let (prefix, detail): (&str, &String) = match self {
            Error::Read(m) => ("could not read workbook: ", m),
            Error::Write(m) => ("could not write workbook: ", m),
            Error::UnknownSheet(name) => ("unknown sheet: ", name),
            Error::MalformedOp(m) => ("malformed operation: ", m),
        };
        let mut s = String::from_str(prefix);
        s.append(detail.as_str());
        s
    }
}

} // verus!
