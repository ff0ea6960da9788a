//! The failures that resolution and command construction report.

use vstd::prelude::*;
use vstd::string::StringExecFns;

verus! {

/// A failure of the library.
#[derive(Debug, PartialEq, Eq)]
pub enum Error {
    /// No handler is known for the MIME type or path.
    NotFound(String),
    /// The path could not be classified into a MIME type.
    AmbiguousExtension(String),
    /// The text is no MIME type.
    BadMimeType(String),
    /// The desktop entry of this file name lacks a name or a command.
    BadEntry(String),
    /// The selector command could not be run.
    Selector(String),
    /// The user left the selector without choosing.
    Cancelled,
    /// A terminal emulator is needed and none is known.
    NoTerminal,
    /// A `file:` URL that names no path.
    BadPath(String),
    /// A failure of reading, writing or parsing outside the library,
    /// with its message.
    Outside(String),
}

/// The model of an `Error`: its kind and the text it carries.
pub enum ErrorView {
    NotFound(Seq<char>),
    AmbiguousExtension(Seq<char>),
    BadMimeType(Seq<char>),
    BadEntry(Seq<char>),
    Selector(Seq<char>),
    Cancelled,
    NoTerminal,
    BadPath(Seq<char>),
    Outside(Seq<char>),
}

impl View for Error {
    type V = ErrorView;

    open spec fn view(&self) -> ErrorView {
        match self {
            Error::NotFound(s) => ErrorView::NotFound(s@),
            Error::AmbiguousExtension(s) => ErrorView::AmbiguousExtension(s@),
            Error::BadMimeType(s) => ErrorView::BadMimeType(s@),
            Error::BadEntry(s) => ErrorView::BadEntry(s@),
            Error::Selector(s) => ErrorView::Selector(s@),
            Error::Cancelled => ErrorView::Cancelled,
            Error::NoTerminal => ErrorView::NoTerminal,
            Error::BadPath(s) => ErrorView::BadPath(s@),
            Error::Outside(s) => ErrorView::Outside(s@),
        }
    }
}

impl Clone for Error {
    fn clone(&self) -> (r: Self)
        ensures
            r@ == self@,
    {
        match self {
            Error::NotFound(s) => Error::NotFound(s.clone()),
            Error::AmbiguousExtension(s) => Error::AmbiguousExtension(s.clone()),
            Error::BadMimeType(s) => Error::BadMimeType(s.clone()),
            Error::BadEntry(s) => Error::BadEntry(s.clone()),
            Error::Selector(s) => Error::Selector(s.clone()),
            Error::Cancelled => Error::Cancelled,
            Error::NoTerminal => Error::NoTerminal,
            Error::BadPath(s) => Error::BadPath(s.clone()),
            Error::Outside(s) => Error::Outside(s.clone()),
        }
    }
}

/// The message of a failure.
pub open spec fn message(e: ErrorView) -> Seq<char> {
    match e {
        ErrorView::NotFound(s) => "No handlers found for '"@ + s + "'"@,
        ErrorView::AmbiguousExtension(s) =>
            "Could not find a mimetype associated with the file extension: '"@ + s + "'"@,
        ErrorView::BadMimeType(s) => "Bad mime: "@ + s,
        ErrorView::BadEntry(s) => "The desktop entry at '"@ + s + "' is not valid"@,
        ErrorView::Selector(s) => "Error spawning selector process '"@ + s + "'"@,
        ErrorView::Cancelled => "Selection cancelled"@,
        ErrorView::NoTerminal =>
            "Please specify the default terminal with handlr set x-scheme-handler/terminal"@,
        ErrorView::BadPath(s) => "Bad path: "@ + s,
        ErrorView::Outside(s) => s,
    }
}

/// `text` between two other texts.
fn framed(before: &str, text: &str, after: &str) -> (r: String)
    ensures
        r@ == before@ + text@ + after@,
{
    let mut r = String::from_str(before);
    r.append(text);
    r.append(after);
    r
}

/// How the end of a run is told to the user.
#[derive(Debug, PartialEq, Eq)]
pub enum Report {
    /// Nothing is told.
    Silent,
    /// The message goes to the log, as information.
    Log(String),
    /// The message goes to standard error.
    Stderr(String),
    /// The message goes to a desktop notification, as nobody would see
    /// standard error.
    Notify(String),
}

/// The model of a `Report`.
pub enum ReportView {
    Silent,
    Log(Seq<char>),
    Stderr(Seq<char>),
    Notify(Seq<char>),
}

impl View for Report {
    type V = ReportView;

    open spec fn view(&self) -> ReportView {
        match self {
            Report::Silent => ReportView::Silent,
            Report::Log(s) => ReportView::Log(s@),
            Report::Stderr(s) => ReportView::Stderr(s@),
            Report::Notify(s) => ReportView::Notify(s@),
        }
    }
}

/// The end of a run: its exit code and what is told to the user.
#[derive(Debug, PartialEq, Eq)]
pub struct Exit {
    pub code: u8,
    pub report: Report,
}

/// What is told of a failure: a cancelled selection is logged; any other
/// failure goes to standard error where the output is a terminal, and to
/// a notification where it is not.
pub open spec fn report_of(e: ErrorView, terminal_output: bool) -> ReportView {
    if e is Cancelled {
        ReportView::Log(message(e))
    } else if terminal_output {
        ReportView::Stderr(message(e))
    } else {
        ReportView::Notify(message(e))
    }
}

/// How a run ends: with code 0 and in silence where it succeeded, with
/// code 1 and a report where it failed, a cancelled selection included.
pub fn handle(result: &Result<(), Error>, terminal_output: bool) -> (r: Exit)
    ensures
        match result {
            Ok(_) => r.code == 0 && r.report@ == ReportView::Silent,
            Err(e) => r.code == 1 && r.report@ == report_of(e@, terminal_output),
        },
{
    match result {
        Ok(_) => Exit { code: 0, report: Report::Silent },
        Err(e) => {
            let text = e.to_string();
            let report = if e.is_cancelled() {
                Report::Log(text)
            } else if terminal_output {
                Report::Stderr(text)
            } else {
                Report::Notify(text)
            };
            Exit { code: 1, report }
        },
    }
}

impl Error {
    /// Whether the user cancelled a selection: an outcome that ends the
    /// run without being a fault.
    pub fn is_cancelled(&self) -> (r: bool)
        ensures
            r == (self@ is Cancelled),
    {
        match self {
            Error::Cancelled => true,
            _ => false,
        }
    }

    /// The message of the failure.
    pub fn to_string(&self) -> (r: String)
        ensures
            r@ == message(self@),
    {
        match self {
            Error::NotFound(s) => framed("No handlers found for '", s.as_str(), "'"),
            Error::AmbiguousExtension(s) => framed(
                "Could not find a mimetype associated with the file extension: '",
                s.as_str(),
                "'",
            ),
            Error::BadMimeType(s) => {
                let mut r = String::from_str("Bad mime: ");
                r.append(s.as_str());
                r
            },
            Error::BadEntry(s) => framed("The desktop entry at '", s.as_str(), "' is not valid"),
            Error::Selector(s) => framed("Error spawning selector process '", s.as_str(), "'"),
            Error::Cancelled => String::from_str("Selection cancelled"),
            Error::NoTerminal => String::from_str(
                "Please specify the default terminal with handlr set x-scheme-handler/terminal",
            ),
            Error::BadPath(s) => {
                let mut r = String::from_str("Bad path: ");
                r.append(s.as_str());
                r
            },
            Error::Outside(s) => s.clone(),
        }
    }
}

} // verus!
