//! The ways in which reading an entry or preparing a launch can fail.

use vstd::prelude::*;
use vstd::string::StringExecFns;

verus! {

/// What went wrong, with the text that caused it where there is one.
#[derive(Debug, Clone, PartialEq, Eq)]
pub enum Error {
    /// No entry matches the search term.
    NoMatchFound(String),
    /// The text is no locale: it names no language.
    InvalidLocale(String),
    /// An entry holds a key that is not known.
    UnknownEntryKey(String),
    /// An entry lacks the key that is named.
    MissingRequiredEntryKey(String),
    /// The primary section describes something other than an application.
    TypeNotApplication,
    /// The application, or its primary section, was not found.
    ApplicationNotFound,
    /// The command template holds no program.
    InvalidCommandLine(String),
    /// No desktop environment is announced.
    NotDesktopEnvironment,
    /// The input holds no section of interest.
    NoGroupsFound,
    /// The text is neither `true` nor `false`.
    InvalidValueFormat(String),
    /// A failure of the system that has no kind of its own.
    UnknownError,
}

/// The mathematical value of an `Error`.
pub ghost enum ErrorView {
    NoMatchFound(Seq<char>),
    InvalidLocale(Seq<char>),
    UnknownEntryKey(Seq<char>),
    MissingRequiredEntryKey(Seq<char>),
    TypeNotApplication,
    ApplicationNotFound,
    InvalidCommandLine(Seq<char>),
    NotDesktopEnvironment,
    NoGroupsFound,
    InvalidValueFormat(Seq<char>),
    UnknownError,
}

impl View for Error {
    type V = ErrorView;

    open spec fn view(&self) -> ErrorView {
        match self {
            Error::NoMatchFound(s) => ErrorView::NoMatchFound(s@),
            Error::InvalidLocale(s) => ErrorView::InvalidLocale(s@),
            Error::UnknownEntryKey(s) => ErrorView::UnknownEntryKey(s@),
            Error::MissingRequiredEntryKey(s) => ErrorView::MissingRequiredEntryKey(s@),
            Error::TypeNotApplication => ErrorView::TypeNotApplication,
            Error::ApplicationNotFound => ErrorView::ApplicationNotFound,
            Error::InvalidCommandLine(s) => ErrorView::InvalidCommandLine(s@),
            Error::NotDesktopEnvironment => ErrorView::NotDesktopEnvironment,
            Error::NoGroupsFound => ErrorView::NoGroupsFound,
            Error::InvalidValueFormat(s) => ErrorView::InvalidValueFormat(s@),
            Error::UnknownError => ErrorView::UnknownError,
        }
    }
}

/// A text between two others.
pub open spec fn framed(before: Seq<char>, text: Seq<char>, after: Seq<char>) -> Seq<char> {
    before + text + after
}

/// What an error says of itself.
pub open spec fn spec_message(e: ErrorView) -> Seq<char> {
    match e {
        ErrorView::NoMatchFound(term) => framed("No match found for search term '"@, term, "'"@),
        ErrorView::InvalidLocale(locale) => framed("Invalid locale '"@, locale, "'"@),
        ErrorView::UnknownEntryKey(key) => framed("Unknown entry key '"@, key, "'"@),
        ErrorView::MissingRequiredEntryKey(key) => framed(
            "Missing required entry key '"@,
            key,
            "'"@,
        ),
        ErrorView::TypeNotApplication => "The entry is not an application"@,
        ErrorView::ApplicationNotFound => "The application was not found"@,
        ErrorView::InvalidCommandLine(cmd_line) => framed(
            "Exec string '"@,
            cmd_line,
            "' not valid"@,
        ),
        ErrorView::NotDesktopEnvironment => "No desktop environment is running"@,
        ErrorView::NoGroupsFound => "No section of a desktop entry was found"@,
        ErrorView::InvalidValueFormat(text) => framed(
            "The value '"@,
            text,
            "' is neither `true` nor `false`"@,
        ),
        ErrorView::UnknownError => "Unknown error"@,
    }
}

/// `text` between `before` and `after`.
fn frame(before: &str, text: &String, after: &str) -> (r: String)
    ensures
        r@ == framed(before@, text@, after@),
{
    let mut r = before.to_owned();
    r.append(text.as_str());
    r.append(after);
    r
}

impl Error {
    /// What the error says of itself, for a reader.
    pub fn message(&self) -> (r: String)
        ensures
            r@ == spec_message(self@),
    {
        match self {
            Error::NoMatchFound(term) => frame("No match found for search term '", term, "'"),
            Error::InvalidLocale(locale) => frame("Invalid locale '", locale, "'"),
            Error::UnknownEntryKey(key) => frame("Unknown entry key '", key, "'"),
            Error::MissingRequiredEntryKey(key) => frame("Missing required entry key '", key, "'"),
            Error::TypeNotApplication => "The entry is not an application".to_owned(),
            Error::ApplicationNotFound => "The application was not found".to_owned(),
            Error::InvalidCommandLine(cmd_line) => frame("Exec string '", cmd_line, "' not valid"),
            Error::NotDesktopEnvironment => "No desktop environment is running".to_owned(),
            Error::NoGroupsFound => "No section of a desktop entry was found".to_owned(),
            Error::InvalidValueFormat(text) => frame(
                "The value '",
                text,
                "' is neither `true` nor `false`",
            ),
            Error::UnknownError => "Unknown error".to_owned(),
        }
    }
}

} // verus!
