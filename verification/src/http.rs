//! Requests to be sent, and what is made of their failures.

use vstd::prelude::*;

use crate::error::{UpdateError, UpdateErrorView};
use crate::text::optional;

verus! {

/// Seconds that every request may take to connect.
pub const CONNECT_TIMEOUT_SECS: u64 = 30;

/// Seconds that the lookup of a release may take in all.
pub const RELEASE_TIMEOUT_SECS: u64 = 15;

/// Seconds that a download may take in all.
pub const DOWNLOAD_TIMEOUT_SECS: u64 = 600;

/// A GET request.
#[derive(Debug)]
pub struct HttpRequest {
    /// Where to send it.
    pub url: String,
    /// The `User-Agent` header.
    pub user_agent: String,
    /// The `Accept` header, if one is to be sent.
    pub accept: Option<String>,
    /// Seconds that the whole exchange may take.
    pub timeout_secs: u64,
}

/// [`HttpRequest`] with its texts as sequences of characters.
pub struct HttpRequestView {
    pub url: Seq<char>,
    pub user_agent: Seq<char>,
    pub accept: Option<Seq<char>>,
    pub timeout_secs: u64,
}

impl View for HttpRequest {
    type V = HttpRequestView;

    open spec fn view(&self) -> HttpRequestView {
        HttpRequestView {
            url: self.url@,
            user_agent: self.user_agent@,
            accept: optional(self.accept),
            timeout_secs: self.timeout_secs,
        }
    }
}

/// How a request failed.
#[derive(Debug)]
pub enum HttpFailure {
    /// The server answered with this error status.
    Status(u16),
    /// Anything else, in words.
    Other(String),
}

/// [`HttpFailure`] with its text as a sequence of characters.
pub enum HttpFailureView {
    Status(u16),
    Other(Seq<char>),
}

impl View for HttpFailure {
    type V = HttpFailureView;

    open spec fn view(&self) -> HttpFailureView {
        match self {
            HttpFailure::Status(code) => HttpFailureView::Status(*code),
            HttpFailure::Other(m) => HttpFailureView::Other(m@),
        }
    }
}

impl HttpFailureView {
    /// The error that a failed request is reported as.
    pub open spec fn error(self) -> UpdateErrorView {
        match self {
            HttpFailureView::Status(code) => UpdateErrorView::Http(code),
            HttpFailureView::Other(m) => UpdateErrorView::Network(m),
        }
    }
}

/// Turns the failure of a request into the error to report: an error status keeps its code, and
/// everything else counts as a failure of the network.
pub fn map_http_err(failure: HttpFailure) -> (error: UpdateError)
    ensures
        error@ == failure@.error(),
{
    match failure {
        HttpFailure::Status(code) => UpdateError::Http(code),
        HttpFailure::Other(m) => UpdateError::Network(m),
    }
}

/// A failed request keeps its status, or else what was said of it.
pub proof fn law_failures_keep_their_cause(code: u16, m: Seq<char>)
    ensures
        HttpFailureView::Status(code).error() == UpdateErrorView::Http(code),
        HttpFailureView::Other(m).error() == UpdateErrorView::Network(m),
{
}

/// A request is seen as it is, header by header, and so is the failure of one.
pub proof fn law_requests_are_seen_as_they_are(request: HttpRequest, code: u16, m: String)
    ensures
        request@.url == request.url@,
        request@.user_agent == request.user_agent@,
        request.accept matches Some(accept) ==> request@.accept == Some(accept@),
        request.accept is None ==> request@.accept is None,
        request@.timeout_secs == request.timeout_secs,
        HttpFailure::Status(code)@ == HttpFailureView::Status(code),
        HttpFailure::Other(m)@ == HttpFailureView::Other(m@),
{
}

/// How long requests may take: half a minute to connect, a quarter of a minute for a release, and
/// ten minutes for a download.
pub proof fn law_requests_have_their_time()
    ensures
        CONNECT_TIMEOUT_SECS == 30,
        RELEASE_TIMEOUT_SECS == 15,
        DOWNLOAD_TIMEOUT_SECS == 600,
{
}

} // verus!
