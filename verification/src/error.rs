//! The errors of the library and the messages they are shown with.
use vstd::prelude::*;

use crate::pattern::RegexError;
use crate::text::{str_chars, string_from_chars, append_chars};

verus! {

/// An error of a command or of the program around it.
#[derive(Debug)]
pub enum Error {
    /// A pattern that does not compile, with the message of the regex engine.
    BadRegex(RegexError),
    /// The terminal colours could not be installed; holds the report's debug text.
    FailedToInstallColors(String),
    /// An input or output action failed; holds the error's debug text.
    IO(String),
    /// The named command does not exist.
    UnknownCommand(String),
    NoArgumentsGivenToCommand,
}

/// What an [`Error`] holds, as plain text.
pub enum ErrorView {
    BadRegex(Seq<char>),
    FailedToInstallColors(Seq<char>),
    IO(Seq<char>),
    UnknownCommand(Seq<char>),
    NoArgumentsGivenToCommand,
}

impl View for Error {
    type V = ErrorView;

    open spec fn view(&self) -> ErrorView {
        match self {
            Error::BadRegex(e) => ErrorView::BadRegex(e@),
            Error::FailedToInstallColors(d) => ErrorView::FailedToInstallColors(d@),
            Error::IO(d) => ErrorView::IO(d@),
            Error::UnknownCommand(c) => ErrorView::UnknownCommand(c@),
            Error::NoArgumentsGivenToCommand => ErrorView::NoArgumentsGivenToCommand,
        }
    }
}

pub type Result<T> = std::result::Result<T, Error>;

/// The message an error is displayed with.
pub open spec fn error_message(e: ErrorView) -> Seq<char> {
    match e {
        ErrorView::BadRegex(m) => "Invalid regex: "@ + m,
        ErrorView::FailedToInstallColors(d) => "Failed to install colors: \""@ + d + "\""@,
        ErrorView::IO(d) => "IO action failed: \""@ + d + "\""@,
        ErrorView::UnknownCommand(c) => "Unknown command: \""@ + c + "\""@,
        ErrorView::NoArgumentsGivenToCommand => "No arguments were passed to the last command"@,
    }
}

impl Error {
    /// The message the error is displayed with.
    pub fn message(&self) -> (m: String)
        ensures
            m@ == error_message(self@),
    {
        let mut chars: Vec<char>;
        match self {
            Error::BadRegex(e) => {
                chars = str_chars("Invalid regex: ");
                append_chars(&mut chars, &str_chars(e.message().as_str()));
            },
            Error::FailedToInstallColors(d) => {
                chars = str_chars("Failed to install colors: \"");
                append_chars(&mut chars, &str_chars(d.as_str()));
                append_chars(&mut chars, &str_chars("\""));
            },
            Error::IO(d) => {
                chars = str_chars("IO action failed: \"");
                append_chars(&mut chars, &str_chars(d.as_str()));
                append_chars(&mut chars, &str_chars("\""));
            },
            Error::UnknownCommand(c) => {
                chars = str_chars("Unknown command: \"");
                append_chars(&mut chars, &str_chars(c.as_str()));
                append_chars(&mut chars, &str_chars("\""));
            },
            Error::NoArgumentsGivenToCommand => {
                chars = str_chars("No arguments were passed to the last command");
            },
        }
        string_from_chars(chars.as_slice())
    }
}

} // verus!
