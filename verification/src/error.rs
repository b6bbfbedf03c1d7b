//! Error type shared by the engine's fallible operations.

use vstd::prelude::*;

verus! {

/// Error values carry their detail as plain text.
#[derive(Debug, Clone)]
pub enum Error {
    /// HTTP request error
    HttpRequest(String),
    /// Invalid header format
    InvalidHeader(String),
    /// Invalid query parameter format
    InvalidQuery(String),
    /// Invalid JSON body
    InvalidJson(String),
    /// IO error
    Io(String),
    /// Invalid command
    InvalidCommand(String),
    /// Missing required argument
    MissingArgument(String),
    /// Unsupported HTTP method
    UnsupportedMethod(String),
}

pub ghost enum ErrorView {
    HttpRequest(Seq<char>),
    InvalidHeader(Seq<char>),
    InvalidQuery(Seq<char>),
    InvalidJson(Seq<char>),
    Io(Seq<char>),
    InvalidCommand(Seq<char>),
    MissingArgument(Seq<char>),
    UnsupportedMethod(Seq<char>),
}

impl View for Error {
    type V = ErrorView;

    open spec fn view(&self) -> ErrorView {
        match self {
            Error::HttpRequest(s) => ErrorView::HttpRequest(s@),
            Error::InvalidHeader(s) => ErrorView::InvalidHeader(s@),
            Error::InvalidQuery(s) => ErrorView::InvalidQuery(s@),
            Error::InvalidJson(s) => ErrorView::InvalidJson(s@),
            Error::Io(s) => ErrorView::Io(s@),
            Error::InvalidCommand(s) => ErrorView::InvalidCommand(s@),
            Error::MissingArgument(s) => ErrorView::MissingArgument(s@),
            Error::UnsupportedMethod(s) => ErrorView::UnsupportedMethod(s@),
        }
    }
}

/// The rendered message of each error.
pub open spec fn spec_error_message(e: ErrorView) -> Seq<char> {
    match e {
        ErrorView::HttpRequest(s) => "HTTP request failed: "@ + s,
        ErrorView::InvalidHeader(s) => "Invalid header: "@ + s,
        ErrorView::InvalidQuery(s) => "Invalid query parameter: "@ + s,
        ErrorView::InvalidJson(s) => "Invalid JSON: "@ + s,
        ErrorView::Io(s) => "IO error: "@ + s,
        ErrorView::InvalidCommand(s) => "Invalid command: "@ + s,
        ErrorView::MissingArgument(s) => "Missing required argument: "@ + s,
        ErrorView::UnsupportedMethod(s) => "Unsupported HTTP method: "@ + s,
    }
}

impl Error {
    /// Render the error as a message line.
    pub fn message(&self) -> (r: String)
        ensures
            r@ == spec_error_message(self@),
    {
        let mut out = String::new();
        match self {
            Error::HttpRequest(s) => {
                out.append("HTTP request failed: ");
                out.append(s.as_str());
            },
            Error::InvalidHeader(s) => {
                out.append("Invalid header: ");
                out.append(s.as_str());
            },
            Error::InvalidQuery(s) => {
                out.append("Invalid query parameter: ");
                out.append(s.as_str());
            },
            Error::InvalidJson(s) => {
                out.append("Invalid JSON: ");
                out.append(s.as_str());
            },
            Error::Io(s) => {
                out.append("IO error: ");
                out.append(s.as_str());
            },
            Error::InvalidCommand(s) => {
                out.append("Invalid command: ");
                out.append(s.as_str());
            },
            Error::MissingArgument(s) => {
                out.append("Missing required argument: ");
                out.append(s.as_str());
            },
            Error::UnsupportedMethod(s) => {
                out.append("Unsupported HTTP method: ");
                out.append(s.as_str());
            },
        }
        out
    }
}

} // verus!
