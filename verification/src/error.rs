//! What can go wrong while looking for, fetching and checking an update.

use vstd::prelude::*;

use crate::text::{decimal, to_decimal};

verus! {

/// Why an update check or a download did not succeed.
#[derive(Debug)]
#[non_exhaustive]
pub enum UpdateError {
    /// The running app's own version cannot be read.
    InvalidVersion(String),
    /// The server answered with an error status.
    Http(u16),
    /// The transfer failed.
    Network(String),
    /// The server's answer cannot be made sense of.
    InvalidResponse(String),
    /// The release has nothing that fits this app.
    NoDownload(String),
    /// The signature, the key, or their match with the file is not in order.
    Verification(String),
    /// A local file or directory could not be used.
    Io(String),
    /// The in-progress download was cancelled by the caller.
    Cancelled,
}

/// [`UpdateError`] with its text as a sequence of characters.
pub enum UpdateErrorView {
    InvalidVersion(Seq<char>),
    Http(u16),
    Network(Seq<char>),
    InvalidResponse(Seq<char>),
    NoDownload(Seq<char>),
    Verification(Seq<char>),
    Io(Seq<char>),
    Cancelled,
}

impl View for UpdateError {
    type V = UpdateErrorView;

    open spec fn view(&self) -> UpdateErrorView {
        match self {
            UpdateError::InvalidVersion(m) => UpdateErrorView::InvalidVersion(m@),
            UpdateError::Http(code) => UpdateErrorView::Http(*code),
            UpdateError::Network(m) => UpdateErrorView::Network(m@),
            UpdateError::InvalidResponse(m) => UpdateErrorView::InvalidResponse(m@),
            UpdateError::NoDownload(m) => UpdateErrorView::NoDownload(m@),
            UpdateError::Verification(m) => UpdateErrorView::Verification(m@),
            UpdateError::Io(m) => UpdateErrorView::Io(m@),
            UpdateError::Cancelled => UpdateErrorView::Cancelled,
        }
    }
}

impl UpdateErrorView {
    /// The error as a line of text.
    pub open spec fn message(self) -> Seq<char> {
        match self {
            UpdateErrorView::InvalidVersion(m) => "Invalid version: "@ + m,
            UpdateErrorView::Http(code) => "HTTP error: "@ + decimal(code as nat),
            UpdateErrorView::Network(m) => "Network error: "@ + m,
            UpdateErrorView::InvalidResponse(m) => "Invalid response: "@ + m,
            UpdateErrorView::NoDownload(m) => "No download: "@ + m,
            UpdateErrorView::Verification(m) => "Verification error: "@ + m,
            UpdateErrorView::Io(m) => "I/O error: "@ + m,
            UpdateErrorView::Cancelled => "Download cancelled"@,
        }
    }
}

/// Puts a label before a text.
pub(crate) fn labelled(label: &str, text: &str) -> (out: String)
    ensures
        out@ == label@ + text@,
{
    String::from(label).concat(text)
}

impl UpdateError {
    /// The error as a line of text.
    pub fn message(&self) -> (text: String)
        ensures
            text@ == self@.message(),
    {
        match self {
            UpdateError::InvalidVersion(m) => labelled("Invalid version: ", m.as_str()),
            UpdateError::Http(code) => labelled("HTTP error: ", to_decimal(*code as u128).as_str()),
            UpdateError::Network(m) => labelled("Network error: ", m.as_str()),
            UpdateError::InvalidResponse(m) => labelled("Invalid response: ", m.as_str()),
            UpdateError::NoDownload(m) => labelled("No download: ", m.as_str()),
            UpdateError::Verification(m) => labelled("Verification error: ", m.as_str()),
            UpdateError::Io(m) => labelled("I/O error: ", m.as_str()),
            UpdateError::Cancelled => String::from("Download cancelled"),
        }
    }
}

/// What an error says: what it is about, and what was said of it, or the status of the server.
pub proof fn law_errors_say_what_they_are(m: Seq<char>, code: u16)
    ensures
        UpdateErrorView::InvalidVersion(m).message() == "Invalid version: "@ + m,
        UpdateErrorView::Http(code).message() == "HTTP error: "@ + decimal(code as nat),
        UpdateErrorView::Network(m).message() == "Network error: "@ + m,
        UpdateErrorView::InvalidResponse(m).message() == "Invalid response: "@ + m,
        UpdateErrorView::NoDownload(m).message() == "No download: "@ + m,
        UpdateErrorView::Verification(m).message() == "Verification error: "@ + m,
        UpdateErrorView::Io(m).message() == "I/O error: "@ + m,
        UpdateErrorView::Cancelled.message() == "Download cancelled"@,
{
}

/// Every error is seen as what it is, with what was said of it.
pub proof fn law_errors_are_seen_as_they_are(m: String, code: u16)
    ensures
        UpdateError::InvalidVersion(m)@ == UpdateErrorView::InvalidVersion(m@),
        UpdateError::Http(code)@ == UpdateErrorView::Http(code),
        UpdateError::Network(m)@ == UpdateErrorView::Network(m@),
        UpdateError::InvalidResponse(m)@ == UpdateErrorView::InvalidResponse(m@),
        UpdateError::NoDownload(m)@ == UpdateErrorView::NoDownload(m@),
        UpdateError::Verification(m)@ == UpdateErrorView::Verification(m@),
        UpdateError::Io(m)@ == UpdateErrorView::Io(m@),
        UpdateError::Cancelled@ == UpdateErrorView::Cancelled,
{
}

} // verus!
