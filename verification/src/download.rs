//! Fetching an update and making sure that it is genuine.
//!
//! A [`Download`] decides what is to be done and what the answers mean; the caller sends the
//! requests and touches the files. Each turn, [`Download::next_action`] says what to do, and the
//! method for that action takes the answer and gives the download as it stands then.

use minisign_verify::{PublicKey, Signature};
use vstd::prelude::*;

use crate::config::UpdaterConfig;
use crate::error::{labelled, UpdateError, UpdateErrorView};
use crate::http::{
    map_http_err, HttpFailure, HttpFailureView, HttpRequest, HttpRequestView, DOWNLOAD_TIMEOUT_SECS,
};
use crate::text::{
    after_last, cut_after_last, free_of, from_chars, law_the_last_part_follows_the_last_separator,
    lemma_after_last, number, optional, parse_number, to_chars,
};

verus! {

/// Bytes that are read at a time.
pub const CHUNK_SIZE: usize = 8192;

/// What is wrong with a public key, in the words of `minisign_verify::PublicKey::from_base64`, or
/// nothing when it can be read.
pub uninterp spec fn key_fault(key: Seq<char>) -> Option<Seq<char>>;

/// What is wrong with a signature, in the words of `minisign_verify::Signature::decode`, or
/// nothing when it can be read.
pub uninterp spec fn signature_fault(signature: Seq<char>) -> Option<Seq<char>>;

/// Why a signature does not vouch for some data, in the words of
/// `minisign_verify::PublicKey::verify`, or nothing when it does.
pub uninterp spec fn verify_fault(
    key: Seq<char>,
    signature: Seq<char>,
    data: Seq<u8>,
    allow_legacy: bool,
) -> Option<Seq<char>>;

/// Reads a public key with `minisign_verify::PublicKey::from_base64` and gives the text of its
/// error, if any. Claimed is that this depends on the key's text alone.
#[verifier::external_body]
fn read_key(key: &str) -> (fault: Option<String>)
    ensures
        optional(fault) == key_fault(key@),
{
    PublicKey::from_base64(key).err().map(|e| e.to_string())
}

/// Reads a signature with `minisign_verify::Signature::decode` and gives the text of its error, if
/// any. Claimed is that this depends on the signature's text alone.
#[verifier::external_body]
fn read_signature(signature: &str) -> (fault: Option<String>)
    ensures
        optional(fault) == signature_fault(signature@),
{
    Signature::decode(signature).err().map(|e| e.to_string())
}

/// Verifies data with `minisign_verify::PublicKey::verify`, the key and the signature given as
/// texts that can be read, and gives the text of its error, if any. Claimed is that this depends on
/// the four arguments alone.
#[verifier::external_body]
fn verify_data(key: &str, signature: &str, data: &[u8], allow_legacy: bool) -> (fault: Option<
    String,
>)
    requires
        key_fault(key@) is None,
        signature_fault(signature@) is None,
    ensures
        optional(fault) == verify_fault(key@, signature@, data@, allow_legacy),
{
    let key = PublicKey::from_base64(key).unwrap();
    let signature = Signature::decode(signature).unwrap();
    key.verify(data, &signature, allow_legacy).err().map(|e| e.to_string())
}

/// What a finding of the signature check means: nothing found is in order, and anything else is a
/// verification error with `label` before it.
pub open spec fn verdict(label: Seq<char>, fault: Option<Seq<char>>) -> Result<
    (),
    UpdateErrorView,
> {
    match fault {
        None => Ok(()),
        Some(m) => Err(UpdateErrorView::Verification(label + m)),
    }
}

/// A result without a value, with its error's text as a sequence of characters.
pub open spec fn done_view(r: Result<(), UpdateError>) -> Result<(), UpdateErrorView> {
    match r {
        Ok(()) => Ok(()),
        Err(e) => Err(e@),
    }
}

/// A result without a value whose error is a text.
pub open spec fn io_view(r: Result<(), String>) -> Result<(), Seq<char>> {
    match r {
        Ok(()) => Ok(()),
        Err(m) => Err(m@),
    }
}

/// Turns a finding of the signature check into a result.
pub fn judge(label: &str, fault: Option<String>) -> (result: Result<(), UpdateError>)
    ensures
        done_view(result) == verdict(label@, optional(fault)),
{
    match fault {
        None => Ok(()),
        Some(m) => Err(UpdateError::Verification(labelled(label, m.as_str()))),
    }
}

/// Answers a look at the cancellation flag: a download that was cancelled ends.
pub fn check_cancelled(cancelled: bool) -> (result: Result<(), UpdateError>)
    ensures
        cancelled ==> done_view(result) == Err::<(), _>(UpdateErrorView::Cancelled),
        !cancelled ==> result is Ok,
{
    if cancelled {
        Err(UpdateError::Cancelled)
    } else {
        Ok(())
    }
}

/// The size that a `Content-Length` header announces; zero when there is none or it makes no
/// sense.
pub open spec fn announced_size(header: Option<Seq<char>>) -> u64 {
    match header {
        Some(value) => match number(value) {
            Some(n) => n,
            None => 0,
        },
        None => 0,
    }
}

/// Reads a `Content-Length` header.
pub fn content_length(header: Option<&str>) -> (size: u64)
    ensures
        size == announced_size(
            match header {
                Some(value) => Some(value@),
                None => None,
            },
        ),
{
    match header {
        Some(value) => {
            let chars = to_chars(value);
            match parse_number(chars.as_slice()) {
                Some(n) => n,
                None => 0,
            }
        },
        None => 0,
    }
}

/// Names the file that a URL points to: what follows its last slash.
pub fn file_name_of(url: &str) -> (name: String)
    ensures
        name@ == after_last(url@, '/'),
{
    let chars = to_chars(url);
    from_chars(cut_after_last(chars.as_slice(), '/'))
}

/// Why a signature could not be fetched.
#[derive(Debug)]
pub enum SignatureFailure {
    /// The request failed.
    Http(HttpFailure),
    /// The answer could not be read.
    Body(String),
}

/// [`SignatureFailure`] with its text as a sequence of characters.
pub enum SignatureFailureView {
    Http(HttpFailureView),
    Body(Seq<char>),
}

impl View for SignatureFailure {
    type V = SignatureFailureView;

    open spec fn view(&self) -> SignatureFailureView {
        match self {
            SignatureFailure::Http(f) => SignatureFailureView::Http(f@),
            SignatureFailure::Body(m) => SignatureFailureView::Body(m@),
        }
    }
}

impl SignatureFailureView {
    /// The error that the failure is reported as.
    pub open spec fn error(self) -> UpdateErrorView {
        match self {
            SignatureFailureView::Http(f) => f.error(),
            SignatureFailureView::Body(m) => UpdateErrorView::Network(
                "Failed to read signature: "@ + m,
            ),
        }
    }
}

/// Turns the failure to fetch a signature into the error to report.
pub fn signature_error(failure: SignatureFailure) -> (error: UpdateError)
    ensures
        error@ == failure@.error(),
{
    match failure {
        SignatureFailure::Http(f) => map_http_err(f),
        SignatureFailure::Body(m) => UpdateError::Network(
            labelled("Failed to read signature: ", m.as_str()),
        ),
    }
}

/// What a download is waiting for.
#[derive(Debug, Clone, Copy, PartialEq, Eq, Structural)]
pub enum Stage {
    /// The signature.
    Signature,
    /// A look at the cancellation flag, before the file is asked for.
    PollBeforeUpdate,
    /// The answer to the request for the file.
    Update,
    /// The directory that the file goes to.
    Directory,
    /// The temporary file.
    Create,
    /// A look at the cancellation flag, before more is read.
    PollBeforeRead,
    /// The next chunk.
    Read,
    /// The chunk to be written.
    Write,
    /// The progress to be reported.
    Report,
    /// The contents of the finished file.
    ReadBack,
    /// The verified file to be given its name.
    Rename,
    /// Nothing more.
    Done,
}

/// A download at one moment.
pub struct DownloadView {
    /// The public key.
    pub key: Seq<char>,
    /// The `User-Agent` header.
    pub user_agent: Seq<char>,
    /// Where the file is.
    pub url: Seq<char>,
    /// Where its signature is.
    pub signature_url: Seq<char>,
    /// The signature, once it is there.
    pub signature: Seq<char>,
    /// The announced size.
    pub total: u64,
    /// Bytes written.
    pub downloaded: u64,
    /// Bytes read and not yet written.
    pub pending: u64,
    /// Whether there may be a temporary file.
    pub temp: bool,
    /// The contents that were verified, once they are.
    pub contents: Seq<u8>,
    /// What the download waits for.
    pub stage: Stage,
    /// How it ended, once it has.
    pub outcome: Option<Result<(), UpdateErrorView>>,
}

/// An answer that a download waits for.
pub enum DownloadEvent {
    Signature(Result<Seq<char>, SignatureFailureView>),
    Polled(bool),
    Update(Result<Option<Seq<char>>, HttpFailureView>),
    Directory(Result<(), UpdateErrorView>),
    Created(Result<(), Seq<char>>),
    Chunk(Result<u64, Seq<char>>),
    Written(Result<(), Seq<char>>),
    Reported,
    Contents(Result<Seq<u8>, Seq<char>>),
    Renamed(Result<(), Seq<char>>),
}

impl DownloadView {
    /// The download, ended by an error.
    pub open spec fn failed(self, error: UpdateErrorView) -> DownloadView {
        DownloadView { stage: Stage::Done, outcome: Some(Err(error)), ..self }
    }

    /// Whether an answer is the one that the download waits for.
    pub open spec fn awaits(self, event: DownloadEvent) -> bool {
        match event {
            DownloadEvent::Signature(_) => self.stage == Stage::Signature,
            DownloadEvent::Polled(_) => self.stage == Stage::PollBeforeUpdate || self.stage
                == Stage::PollBeforeRead,
            DownloadEvent::Update(_) => self.stage == Stage::Update,
            DownloadEvent::Directory(_) => self.stage == Stage::Directory,
            DownloadEvent::Created(_) => self.stage == Stage::Create,
            DownloadEvent::Chunk(read) => self.stage == Stage::Read && (read matches Ok(n) ==> n
                + self.downloaded <= u64::MAX),
            DownloadEvent::Written(_) => self.stage == Stage::Write,
            DownloadEvent::Reported => self.stage == Stage::Report,
            DownloadEvent::Contents(_) => self.stage == Stage::ReadBack,
            DownloadEvent::Renamed(_) => self.stage == Stage::Rename,
        }
    }

    /// The download after an answer that it waited for.
    pub open spec fn after(self, event: DownloadEvent) -> DownloadView {
        match event {
            DownloadEvent::Signature(Err(f)) => self.failed(f.error()),
            DownloadEvent::Signature(Ok(text)) => match verdict(
                "Invalid signature: "@,
                signature_fault(text),
            ) {
                Err(e) => self.failed(e),
                Ok(()) => (DownloadView {
                    signature: text,
                    stage: Stage::PollBeforeUpdate,
                    ..self
                }),
            },
            DownloadEvent::Polled(cancelled) => if cancelled {
                self.failed(UpdateErrorView::Cancelled)
            } else if self.stage == Stage::PollBeforeUpdate {
                DownloadView { stage: Stage::Update, ..self }
            } else {
                DownloadView { stage: Stage::Read, ..self }
            },
            DownloadEvent::Update(Err(f)) => self.failed(f.error()),
            DownloadEvent::Update(Ok(header)) => (DownloadView {
                total: announced_size(header),
                stage: Stage::Directory,
                ..self
            }),
            DownloadEvent::Directory(Err(e)) => self.failed(e),
            DownloadEvent::Directory(Ok(())) => (DownloadView {
                temp: true,
                stage: Stage::Create,
                ..self
            }),
            DownloadEvent::Created(Err(m)) => self.failed(
                UpdateErrorView::Io("Failed to create file: "@ + m),
            ),
            DownloadEvent::Created(Ok(())) => (DownloadView {
                stage: Stage::PollBeforeRead,
                ..self
            }),
            DownloadEvent::Chunk(Err(m)) => self.failed(UpdateErrorView::Network(m)),
            DownloadEvent::Chunk(Ok(n)) => if n == 0 {
                DownloadView { stage: Stage::ReadBack, ..self }
            } else {
                DownloadView { pending: n, stage: Stage::Write, ..self }
            },
            DownloadEvent::Written(Err(m)) => self.failed(
                UpdateErrorView::Io("Failed to write file: "@ + m),
            ),
            DownloadEvent::Written(Ok(())) => (DownloadView {
                downloaded: (self.downloaded + self.pending) as u64,
                pending: 0,
                stage: Stage::Report,
                ..self
            }),
            DownloadEvent::Reported => (DownloadView { stage: Stage::PollBeforeRead, ..self }),
            DownloadEvent::Contents(Err(m)) => self.failed(
                UpdateErrorView::Io("Failed to read file for verification: "@ + m),
            ),
            DownloadEvent::Contents(Ok(data)) => match verdict(
                "Signature verification failed: "@,
                verify_fault(self.key, self.signature, data, true),
            ) {
                Err(e) => self.failed(e),
                Ok(()) => (DownloadView { contents: data, stage: Stage::Rename, ..self }),
            },
            DownloadEvent::Renamed(Err(m)) => self.failed(
                UpdateErrorView::Io("Failed to rename verified file: "@ + m),
            ),
            DownloadEvent::Renamed(Ok(())) => (DownloadView {
                stage: Stage::Done,
                outcome: Some(Ok(())),
                ..self
            }),
        }
    }

    /// A request of this download.
    pub open spec fn request(self, url: Seq<char>) -> HttpRequestView {
        HttpRequestView {
            url,
            user_agent: self.user_agent,
            accept: None,
            timeout_secs: DOWNLOAD_TIMEOUT_SECS,
        }
    }

    /// What the download wants done next.
    pub open spec fn action(self) -> DownloadActionView {
        match self.stage {
            Stage::Signature => DownloadActionView::FetchSignature(
                self.request(self.signature_url),
            ),
            Stage::PollBeforeUpdate | Stage::PollBeforeRead => DownloadActionView::PollCancelled,
            Stage::Update => DownloadActionView::FetchUpdate(self.request(self.url)),
            Stage::Directory => DownloadActionView::LocateDirectory,
            Stage::Create => DownloadActionView::CreateTemp {
                file_name: after_last(self.url, '/'),
                temp_name: after_last(self.url, '/') + ".tmp"@,
            },
            Stage::Read => DownloadActionView::ReadChunk,
            Stage::Write => DownloadActionView::WriteChunk,
            Stage::Report => DownloadActionView::ReportProgress {
                downloaded: self.downloaded,
                total: self.total,
            },
            Stage::ReadBack => DownloadActionView::ReadBack,
            Stage::Rename => DownloadActionView::Rename,
            Stage::Done => DownloadActionView::Finish { remove_temp: self.temp },
        }
    }

    /// What holds of a download at every moment.
    pub open spec fn sound(self) -> bool {
        &&& key_fault(self.key) is None
        &&& self.stage != Stage::Signature && self.stage != Stage::Done ==> signature_fault(
            self.signature,
        ) is None
        &&& self.stage == Stage::Write ==> self.downloaded + self.pending <= u64::MAX
        &&& self.outcome is Some <==> self.stage == Stage::Done
    }
}

/// A download as it starts.
pub open spec fn started(config: UpdaterConfig, url: Seq<char>, signature_url: Seq<char>) -> DownloadView {
    DownloadView {
        key: config.minisign_public_key@,
        user_agent: config.user_agent@,
        url,
        signature_url,
        signature: ""@,
        total: 0,
        downloaded: 0,
        pending: 0,
        temp: false,
        contents: Seq::empty(),
        stage: Stage::Signature,
        outcome: None,
    }
}

/// Something that a download wants done.
#[derive(Debug)]
pub enum DownloadAction {
    /// Fetch the signature, and read it as text.
    FetchSignature(HttpRequest),
    /// Look at the cancellation flag.
    PollCancelled,
    /// Ask for the file, up to the headers of the answer.
    FetchUpdate(HttpRequest),
    /// Find the directory that the file goes to.
    LocateDirectory,
    /// Create the temporary file, next to where the file will be.
    CreateTemp { file_name: String, temp_name: String },
    /// Read a chunk of the file.
    ReadChunk,
    /// Write the chunk that was read to the temporary file.
    WriteChunk,
    /// Report how far the download has come.
    ReportProgress { downloaded: u64, total: u64 },
    /// Close the temporary file and read what it holds.
    ReadBack,
    /// Give the temporary file its name.
    Rename,
    /// Stop. Remove the temporary file, if `remove_temp` says so and it is still there.
    Finish { remove_temp: bool },
}

/// [`DownloadAction`] with its texts as sequences of characters.
pub enum DownloadActionView {
    FetchSignature(HttpRequestView),
    PollCancelled,
    FetchUpdate(HttpRequestView),
    LocateDirectory,
    CreateTemp { file_name: Seq<char>, temp_name: Seq<char> },
    ReadChunk,
    WriteChunk,
    ReportProgress { downloaded: u64, total: u64 },
    ReadBack,
    Rename,
    Finish { remove_temp: bool },
}

impl View for DownloadAction {
    type V = DownloadActionView;

    open spec fn view(&self) -> DownloadActionView {
        match self {
            DownloadAction::FetchSignature(r) => DownloadActionView::FetchSignature(r@),
            DownloadAction::PollCancelled => DownloadActionView::PollCancelled,
            DownloadAction::FetchUpdate(r) => DownloadActionView::FetchUpdate(r@),
            DownloadAction::LocateDirectory => DownloadActionView::LocateDirectory,
            DownloadAction::CreateTemp { file_name, temp_name } => DownloadActionView::CreateTemp {
                file_name: file_name@,
                temp_name: temp_name@,
            },
            DownloadAction::ReadChunk => DownloadActionView::ReadChunk,
            DownloadAction::WriteChunk => DownloadActionView::WriteChunk,
            DownloadAction::ReportProgress { downloaded, total } =>
                DownloadActionView::ReportProgress { downloaded: *downloaded, total: *total },
            DownloadAction::ReadBack => DownloadActionView::ReadBack,
            DownloadAction::Rename => DownloadActionView::Rename,
            DownloadAction::Finish { remove_temp } => DownloadActionView::Finish {
                remove_temp: *remove_temp,
            },
        }
    }
}

/// A download in progress.
pub struct Download {
    key: String,
    user_agent: String,
    url: String,
    signature_url: String,
    signature: String,
    total: u64,
    downloaded: u64,
    pending: u64,
    temp: bool,
    contents: Ghost<Seq<u8>>,
    stage: Stage,
    outcome: Option<Result<(), UpdateError>>,
}

impl View for Download {
    type V = DownloadView;

    closed spec fn view(&self) -> DownloadView {
        DownloadView {
            key: self.key@,
            user_agent: self.user_agent@,
            url: self.url@,
            signature_url: self.signature_url@,
            signature: self.signature@,
            total: self.total,
            downloaded: self.downloaded,
            pending: self.pending,
            temp: self.temp,
            contents: self.contents@,
            stage: self.stage,
            outcome: match self.outcome {
                Some(r) => Some(done_view(r)),
                None => None,
            },
        }
    }
}

impl Download {
    #[verifier::type_invariant]
    spec fn inv(self) -> bool {
        self@.sound()
    }

    /// Starts a download. A public key that cannot be read ends it before anything is asked for.
    pub fn start(config: &UpdaterConfig, url: &str, signature_url: &str) -> (download: Result<
        Download,
        UpdateError,
    >)
        ensures
            download matches Err(e) ==> verdict(
                "Invalid public key: "@,
                key_fault(config.minisign_public_key@),
            ) == Err::<(), _>(e@),
            download matches Ok(d) ==> key_fault(config.minisign_public_key@) is None && d@
                == started(*config, url@, signature_url@),
    {
        match judge("Invalid public key: ", read_key(config.minisign_public_key.as_str())) {
            Err(e) => Err(e),
            Ok(()) => Ok(
                Download {
                    key: config.minisign_public_key.clone(),
                    user_agent: config.user_agent.clone(),
                    url: String::from(url),
                    signature_url: String::from(signature_url),
                    signature: String::from(""),
                    total: 0,
                    downloaded: 0,
                    pending: 0,
                    temp: false,
                    contents: Ghost(Seq::empty()),
                    stage: Stage::Signature,
                    outcome: None,
                },
            ),
        }
    }

    /// What is to be done next.
    pub fn next_action(&self) -> (action: DownloadAction)
        ensures
            action@ == self@.action(),
    {
        match self.stage {
            Stage::Signature => DownloadAction::FetchSignature(
                self.make_request(self.signature_url.clone()),
            ),
            Stage::PollBeforeUpdate => DownloadAction::PollCancelled,
            Stage::PollBeforeRead => DownloadAction::PollCancelled,
            Stage::Update => DownloadAction::FetchUpdate(self.make_request(self.url.clone())),
            Stage::Directory => DownloadAction::LocateDirectory,
            Stage::Create => {
                let file_name = file_name_of(self.url.as_str());
                let temp_name = file_name.clone().concat(".tmp");
                DownloadAction::CreateTemp { file_name, temp_name }
            },
            Stage::Read => DownloadAction::ReadChunk,
            Stage::Write => DownloadAction::WriteChunk,
            Stage::Report => DownloadAction::ReportProgress {
                downloaded: self.downloaded,
                total: self.total,
            },
            Stage::ReadBack => DownloadAction::ReadBack,
            Stage::Rename => DownloadAction::Rename,
            Stage::Done => DownloadAction::Finish { remove_temp: self.temp },
        }
    }

    /// Makes a request of this download.
    fn make_request(&self, url: String) -> (request: HttpRequest)
        ensures
            request@ == self@.request(url@),
    {
        HttpRequest {
            url,
            user_agent: self.user_agent.clone(),
            accept: None,
            timeout_secs: DOWNLOAD_TIMEOUT_SECS,
        }
    }

    /// Ends the download with an error.
    fn fail(self, error: UpdateError) -> (next: Download)
        ensures
            next@ == self@.failed(error@),
    {
        proof {
            use_type_invariant(&self);
        }
        Download { stage: Stage::Done, outcome: Some(Err(error)), ..self }
    }

    /// Moves on to another stage.
    fn to_stage(self, stage: Stage) -> (next: Download)
        requires
            self@.stage != Stage::Signature,
            self@.stage != Stage::Done,
            stage != Stage::Write,
            stage != Stage::Done,
        ensures
            next@ == (DownloadView { stage, ..self@ }),
    {
        proof {
            use_type_invariant(&self);
        }
        Download { stage, ..self }
    }

    /// Takes the signature.
    pub fn on_signature(self, reply: Result<String, SignatureFailure>) -> (next: Download)
        requires
            self@.stage == Stage::Signature,
        ensures
            next@ == self@.after(
                DownloadEvent::Signature(
                    match reply {
                        Ok(text) => Ok(text@),
                        Err(f) => Err(f@),
                    },
                ),
            ),
    {
        proof {
            use_type_invariant(&self);
        }
        match reply {
            Err(f) => self.fail(signature_error(f)),
            Ok(text) => match judge("Invalid signature: ", read_signature(text.as_str())) {
                Err(e) => self.fail(e),
                Ok(()) => Download { signature: text, stage: Stage::PollBeforeUpdate, ..self },
            },
        }
    }

    /// Takes what the cancellation flag says.
    pub fn on_polled(self, cancelled: bool) -> (next: Download)
        requires
            self@.stage == Stage::PollBeforeUpdate || self@.stage == Stage::PollBeforeRead,
        ensures
            next@ == self@.after(DownloadEvent::Polled(cancelled)),
    {
        match check_cancelled(cancelled) {
            Err(e) => self.fail(e),
            Ok(()) => if self.stage == Stage::PollBeforeUpdate {
                self.to_stage(Stage::Update)
            } else {
                self.to_stage(Stage::Read)
            },
        }
    }

    /// Takes the answer to the request for the file: its `Content-Length` header, if any.
    pub fn on_update(self, reply: Result<Option<String>, HttpFailure>) -> (next: Download)
        requires
            self@.stage == Stage::Update,
        ensures
            next@ == self@.after(
                DownloadEvent::Update(
                    match reply {
                        Ok(header) => Ok(optional(header)),
                        Err(f) => Err(f@),
                    },
                ),
            ),
    {
        proof {
            use_type_invariant(&self);
        }
        match reply {
            Err(f) => self.fail(map_http_err(f)),
            Ok(header) => {
                let total: u64 = match &header {
                    Some(value) => content_length(Some(value.as_str())),
                    None => content_length(None),
                };
                Download { total, stage: Stage::Directory, ..self }
            },
        }
    }

    /// Takes whether the directory for the file was found.
    pub fn on_directory(self, found: Result<(), UpdateError>) -> (next: Download)
        requires
            self@.stage == Stage::Directory,
        ensures
            next@ == self@.after(DownloadEvent::Directory(done_view(found))),
    {
        proof {
            use_type_invariant(&self);
        }
        match found {
            Err(e) => self.fail(e),
            Ok(()) => Download { temp: true, stage: Stage::Create, ..self },
        }
    }

    /// Takes whether the temporary file could be created.
    pub fn on_created(self, created: Result<(), String>) -> (next: Download)
        requires
            self@.stage == Stage::Create,
        ensures
            next@ == self@.after(DownloadEvent::Created(io_view(created))),
    {
        match created {
            Err(m) => self.fail(
                UpdateError::Io(labelled("Failed to create file: ", m.as_str())),
            ),
            Ok(()) => self.to_stage(Stage::PollBeforeRead),
        }
    }

    /// Takes how many bytes of the file were read; none means that it has ended.
    pub fn on_chunk(self, read: Result<u64, String>) -> (next: Download)
        requires
            self@.stage == Stage::Read,
            read matches Ok(n) ==> n + self@.downloaded <= u64::MAX,
        ensures
            next@ == self@.after(
                DownloadEvent::Chunk(
                    match read {
                        Ok(n) => Ok(n),
                        Err(m) => Err(m@),
                    },
                ),
            ),
    {
        proof {
            use_type_invariant(&self);
        }
        match read {
            Err(m) => self.fail(UpdateError::Network(m)),
            Ok(n) => if n == 0 {
                self.to_stage(Stage::ReadBack)
            } else {
                Download { pending: n, stage: Stage::Write, ..self }
            },
        }
    }

    /// Takes whether the chunk could be written.
    pub fn on_written(self, written: Result<(), String>) -> (next: Download)
        requires
            self@.stage == Stage::Write,
        ensures
            next@ == self@.after(DownloadEvent::Written(io_view(written))),
    {
        proof {
            use_type_invariant(&self);
        }
        match written {
            Err(m) => self.fail(
                UpdateError::Io(labelled("Failed to write file: ", m.as_str())),
            ),
            Ok(()) => Download {
                downloaded: self.downloaded + self.pending,
                pending: 0,
                stage: Stage::Report,
                ..self
            },
        }
    }

    /// Goes on once the progress has been reported.
    pub fn on_reported(self) -> (next: Download)
        requires
            self@.stage == Stage::Report,
        ensures
            next@ == self@.after(DownloadEvent::Reported),
    {
        self.to_stage(Stage::PollBeforeRead)
    }

    /// Takes the contents of the finished file, and verifies them against the signature.
    pub fn on_contents(self, read: Result<Vec<u8>, String>) -> (next: Download)
        requires
            self@.stage == Stage::ReadBack,
        ensures
            next@ == self@.after(
                DownloadEvent::Contents(
                    match read {
                        Ok(data) => Ok(data@),
                        Err(m) => Err(m@),
                    },
                ),
            ),
    {
        proof {
            use_type_invariant(&self);
        }
        match read {
            Err(m) => self.fail(
                UpdateError::Io(labelled("Failed to read file for verification: ", m.as_str())),
            ),
            Ok(data) => {
                let fault = verify_data(
                    self.key.as_str(),
                    self.signature.as_str(),
                    data.as_slice(),
                    true,
                );
                match judge("Signature verification failed: ", fault) {
                    Err(e) => self.fail(e),
                    Ok(()) => Download {
                        contents: Ghost(data@),
                        stage: Stage::Rename,
                        ..self
                    },
                }
            },
        }
    }

    /// Takes whether the verified file could be given its name.
    pub fn on_renamed(self, renamed: Result<(), String>) -> (next: Download)
        requires
            self@.stage == Stage::Rename,
        ensures
            next@ == self@.after(DownloadEvent::Renamed(io_view(renamed))),
    {
        proof {
            use_type_invariant(&self);
        }
        match renamed {
            Err(m) => self.fail(
                UpdateError::Io(labelled("Failed to rename verified file: ", m.as_str())),
            ),
            Ok(()) => Download { stage: Stage::Done, outcome: Some(Ok(())), ..self },
        }
    }

    /// How the download ended; nothing while it goes on.
    pub fn finish(self) -> (outcome: Option<Result<(), UpdateError>>)
        ensures
            self@.outcome == (match outcome {
                Some(r) => Some(done_view(r)),
                None => None,
            }),
            outcome is Some <==> self@.stage == Stage::Done,
    {
        proof {
            use_type_invariant(&self);
        }
        self.outcome
    }
}

/// A download after a list of answers.
pub open spec fn run(start: DownloadView, events: Seq<DownloadEvent>) -> DownloadView
    decreases events.len(),
{
    if events.len() == 0 {
        start
    } else {
        run(start, events.drop_last()).after(events.last())
    }
}

/// Whether each answer comes when the download waits for it.
pub open spec fn orderly(start: DownloadView, events: Seq<DownloadEvent>) -> bool
    decreases events.len(),
{
    events.len() > 0 ==> orderly(start, events.drop_last()) && run(
        start,
        events.drop_last(),
    ).awaits(events.last())
}

/// What was in a list is still in a longer one.
proof fn lemma_still_there(events: Seq<DownloadEvent>, event: DownloadEvent)
    requires
        events.len() > 0,
        events.drop_last().contains(event),
    ensures
        events.contains(event),
{
    let i = choose|i: int| 0 <= i < events.drop_last().len() && events.drop_last()[i] == event;
    assert(events[i] == event);
}

/// No file is kept that was not verified: whenever the file is about to get its name, or has got
/// it, the contents that were read back are vouched for by the signature that was fetched, under
/// the app's public key.
pub proof fn law_only_verified_files_are_kept(
    config: UpdaterConfig,
    url: Seq<char>,
    signature_url: Seq<char>,
    events: Seq<DownloadEvent>,
)
    requires
        orderly(started(config, url, signature_url), events),
    ensures
        ({
            let d = run(started(config, url, signature_url), events);
            d.stage == Stage::Rename || d.outcome == Some(Ok::<(), UpdateErrorView>(())) ==> {
                &&& verify_fault(
                    config.minisign_public_key@,
                    d.signature,
                    d.contents,
                    true,
                ) is None
                &&& events.contains(DownloadEvent::Signature(Ok(d.signature)))
                &&& events.contains(DownloadEvent::Contents(Ok(d.contents)))
            }
        }),
{
    lemma_history(config, url, signature_url, events);
}

proof fn lemma_history(
    config: UpdaterConfig,
    url: Seq<char>,
    signature_url: Seq<char>,
    events: Seq<DownloadEvent>,
)
    requires
        orderly(started(config, url, signature_url), events),
    ensures
        ({
            let d = run(started(config, url, signature_url), events);
            &&& d.key == config.minisign_public_key@
            &&& d.url == url
            &&& d.outcome is Some <==> d.stage == Stage::Done
            &&& d.stage != Stage::Signature && d.stage != Stage::Done ==> events.contains(
                DownloadEvent::Signature(Ok(d.signature)),
            )
            &&& d.stage == Stage::Rename || d.outcome == Some(Ok::<(), UpdateErrorView>(())) ==> {
                &&& verify_fault(d.key, d.signature, d.contents, true) is None
                &&& events.contains(DownloadEvent::Signature(Ok(d.signature)))
                &&& events.contains(DownloadEvent::Contents(Ok(d.contents)))
            }
            &&& (exists|r: Result<(), Seq<char>>|
                events.contains(DownloadEvent::Created(r))) || d.stage == Stage::Create || d.stage
                == Stage::PollBeforeRead || d.stage == Stage::Read || d.stage == Stage::Write
                || d.stage == Stage::Report || d.stage == Stage::ReadBack || d.stage
                == Stage::Rename ==> d.temp
        }),
    decreases events.len(),
{
    if events.len() > 0 {
        let init = events.drop_last();
        let last = events.last();
        lemma_history(config, url, signature_url, init);
        let p = run(started(config, url, signature_url), init);
        let d = p.after(last);
        assert(events[events.len() - 1] == last);
        if init.contains(DownloadEvent::Signature(Ok(p.signature))) {
            lemma_still_there(events, DownloadEvent::Signature(Ok(p.signature)));
        }
        if init.contains(DownloadEvent::Contents(Ok(p.contents))) {
            lemma_still_there(events, DownloadEvent::Contents(Ok(p.contents)));
        }
        if exists|r: Result<(), Seq<char>>| events.contains(DownloadEvent::Created(r)) {
            let r = choose|r: Result<(), Seq<char>>| events.contains(DownloadEvent::Created(r));
            let i = choose|i: int|
                0 <= i < events.len() && events[i] == DownloadEvent::Created(r);
            if i < init.len() {
                assert(init[i] == DownloadEvent::Created(r));
                assert(init.contains(DownloadEvent::Created(r)));
            }
            assert(p.temp);
        }
    }
}

/// A download that is told of its cancellation ends there and then, and wants its temporary file
/// removed if there may be one.
pub proof fn law_cancellation_ends_a_download(d: DownloadView)
    requires
        d.awaits(DownloadEvent::Polled(true)),
    ensures
        d.after(DownloadEvent::Polled(true)).outcome == Some(
            Err::<(), _>(UpdateErrorView::Cancelled),
        ),
        d.after(DownloadEvent::Polled(true)).action() == (DownloadActionView::Finish {
            remove_temp: d.temp,
        }),
{
}

/// Nothing is read, and the file is not even asked for, without a look at the cancellation flag
/// just before.
pub proof fn law_cancellation_is_looked_for(d: DownloadView, event: DownloadEvent)
    requires
        d.awaits(event),
        d.after(event).stage == Stage::Read || d.after(event).stage == Stage::Update,
    ensures
        event == DownloadEvent::Polled(false),
{
}

/// However a download ends, once it has tried to create its temporary file it wants that file
/// removed.
pub proof fn law_no_temporary_file_is_left(
    config: UpdaterConfig,
    url: Seq<char>,
    signature_url: Seq<char>,
    events: Seq<DownloadEvent>,
    created: Result<(), Seq<char>>,
)
    requires
        orderly(started(config, url, signature_url), events),
        events.contains(DownloadEvent::Created(created)),
        run(started(config, url, signature_url), events).stage == Stage::Done,
    ensures
        run(started(config, url, signature_url), events).action() == (DownloadActionView::Finish {
            remove_temp: true,
        }),
{
    lemma_history(config, url, signature_url, events);
}

/// The bytes that were read in a list of answers.
pub open spec fn bytes_read(events: Seq<DownloadEvent>) -> nat
    decreases events.len(),
{
    if events.len() == 0 {
        0
    } else {
        bytes_read(events.drop_last()) + (match events.last() {
            DownloadEvent::Chunk(Ok(n)) => n as nat,
            _ => 0nat,
        })
    }
}

/// The progress that is reported is what has been read and written so far, of the announced size.
pub proof fn law_progress_counts_every_byte(
    config: UpdaterConfig,
    url: Seq<char>,
    signature_url: Seq<char>,
    events: Seq<DownloadEvent>,
)
    requires
        orderly(started(config, url, signature_url), events),
    ensures
        ({
            let d = run(started(config, url, signature_url), events);
            d.stage == Stage::Report ==> d.downloaded == bytes_read(events) && d.action() == (
            DownloadActionView::ReportProgress {
                downloaded: bytes_read(events) as u64,
                total: d.total,
            })
        }),
{
    lemma_progress(config, url, signature_url, events);
}

proof fn lemma_progress(
    config: UpdaterConfig,
    url: Seq<char>,
    signature_url: Seq<char>,
    events: Seq<DownloadEvent>,
)
    requires
        orderly(started(config, url, signature_url), events),
    ensures
        ({
            let d = run(started(config, url, signature_url), events);
            d.stage != Stage::Done ==> d.downloaded + d.pending == bytes_read(events)
                && d.downloaded + d.pending <= u64::MAX && (d.stage != Stage::Write ==> d.pending
                == 0)
        }),
    decreases events.len(),
{
    if events.len() > 0 {
        lemma_progress(config, url, signature_url, events.drop_last());
    }
}

/// A download that has ended waits for nothing.
pub proof fn law_the_end_is_final(d: DownloadView, event: DownloadEvent)
    requires
        d.stage == Stage::Done,
    ensures
        !d.awaits(event),
{
}

/// The name of a downloaded file is where its URL ends, and leads nowhere else: neither it nor the
/// temporary name, which is a different one, holds a slash.
pub proof fn law_file_names_stay_in_the_directory(url: Seq<char>)
    ensures
        ({
            let name = after_last(url, '/');
            &&& name == url.skip(url.len() - name.len())
            &&& forall|i: int| 0 <= i < name.len() ==> name[i] != '/'
            &&& forall|i: int| 0 <= i < (name + ".tmp"@).len() ==> (name + ".tmp"@)[i] != '/'
            &&& name + ".tmp"@ != name
        }),
{
    reveal_strlit(".tmp");
    lemma_after_last(url, '/');
    let name = after_last(url, '/');
    assert((name + ".tmp"@).len() == name.len() + 4);
}

/// The file is read back exactly when its end was read, which is when a read gave nothing. After a
/// report the download looks at the cancellation flag and reads on, however much has come.
pub proof fn law_the_file_is_read_to_its_end(d: DownloadView, event: DownloadEvent)
    requires
        d.awaits(event),
    ensures
        d.after(event).stage == Stage::ReadBack <==> event == DownloadEvent::Chunk(
            Ok::<u64, Seq<char>>(0u64),
        ),
        event is Reported ==> d.after(event).action() == DownloadActionView::PollCancelled
            && d.after(event).after(DownloadEvent::Polled(false)).action()
            == DownloadActionView::ReadChunk,
{
}

/// What each step of a download follows from: every stage is reached by one answer, and that answer
/// leads nowhere else.
pub proof fn law_steps_follow_one_another(d: DownloadView, event: DownloadEvent)
    requires
        d.awaits(event),
        d.outcome is None,
    ensures
        ({
            let next = d.after(event);
            &&& next.stage != Stage::Signature
            &&& next.stage == Stage::PollBeforeUpdate <==> (event matches DownloadEvent::Signature(
                Ok(text),
            ) && signature_fault(text) is None)
            &&& next.stage == Stage::Update <==> event == DownloadEvent::Polled(false) && d.stage
                == Stage::PollBeforeUpdate
            &&& next.stage == Stage::Directory <==> (event matches DownloadEvent::Update(reply)
                && reply is Ok)
            &&& next.stage == Stage::Create <==> (event matches DownloadEvent::Directory(found)
                && found is Ok)
            &&& next.stage == Stage::PollBeforeRead <==> event is Reported || (event matches
                DownloadEvent::Created(created) && created is Ok)
            &&& next.stage == Stage::Read <==> event == DownloadEvent::Polled(false) && d.stage
                == Stage::PollBeforeRead
            &&& next.stage == Stage::Write <==> (event matches DownloadEvent::Chunk(Ok(n)) && n > 0)
            &&& next.stage == Stage::Report <==> (event matches DownloadEvent::Written(written)
                && written is Ok)
            &&& next.stage == Stage::Rename <==> (event matches DownloadEvent::Contents(Ok(data))
                && verify_fault(d.key, d.signature, data, true) is None)
            &&& next.outcome == Some(Ok::<(), UpdateErrorView>(())) <==> (event matches
                DownloadEvent::Renamed(renamed) && renamed is Ok)
            &&& next.outcome is Some <==> next.stage == Stage::Done
        }),
{
}

/// What a step leaves as it is: what was asked for never changes, and each answer changes only what
/// it is about.
pub proof fn law_steps_change_only_their_own(d: DownloadView, event: DownloadEvent)
    requires
        d.awaits(event),
    ensures
        ({
            let next = d.after(event);
            &&& next.key == d.key
            &&& next.user_agent == d.user_agent
            &&& next.url == d.url
            &&& next.signature_url == d.signature_url
            &&& next.stage == Stage::PollBeforeUpdate ==> event == DownloadEvent::Signature(
                Ok::<_, SignatureFailureView>(next.signature),
            )
            &&& !(event is Signature) ==> next.signature == d.signature
            &&& event matches DownloadEvent::Update(Ok(header)) ==> next.total == announced_size(
                header,
            )
            &&& !(event is Update) ==> next.total == d.total
            &&& next.stage == Stage::Rename ==> event == DownloadEvent::Contents(
                Ok::<_, Seq<char>>(next.contents),
            )
            &&& !(event is Contents) ==> next.contents == d.contents
            &&& next.temp == (d.temp || next.stage == Stage::Create)
        }),
{
}

/// Every failure ends the download, and is reported as what it is.
pub proof fn law_failures_end_a_download(
    d: DownloadView,
    code: u16,
    m: Seq<char>,
    data: Seq<u8>,
    error: UpdateErrorView,
)
    ensures
        ({
            let ended = |event: DownloadEvent, e: UpdateErrorView|
                d.after(event).outcome == Some(Err::<(), UpdateErrorView>(e)) && d.after(
                    event,
                ).action() == (DownloadActionView::Finish { remove_temp: d.temp });
            let status = HttpFailureView::Status(code);
            let other = HttpFailureView::Other(m);
            &&& ended(
                DownloadEvent::Signature(Err(SignatureFailureView::Http(status))),
                UpdateErrorView::Http(code),
            )
            &&& ended(
                DownloadEvent::Signature(Err(SignatureFailureView::Http(other))),
                UpdateErrorView::Network(m),
            )
            &&& ended(
                DownloadEvent::Signature(Err(SignatureFailureView::Body(m))),
                UpdateErrorView::Network("Failed to read signature: "@ + m),
            )
            &&& signature_fault(m) matches Some(fault) ==> ended(
                DownloadEvent::Signature(Ok(m)),
                UpdateErrorView::Verification("Invalid signature: "@ + fault),
            )
            &&& ended(DownloadEvent::Polled(true), UpdateErrorView::Cancelled)
            &&& ended(DownloadEvent::Update(Err(status)), UpdateErrorView::Http(code))
            &&& ended(DownloadEvent::Update(Err(other)), UpdateErrorView::Network(m))
            &&& ended(DownloadEvent::Directory(Err(error)), error)
            &&& ended(
                DownloadEvent::Created(Err(m)),
                UpdateErrorView::Io("Failed to create file: "@ + m),
            )
            &&& ended(DownloadEvent::Chunk(Err(m)), UpdateErrorView::Network(m))
            &&& ended(
                DownloadEvent::Written(Err(m)),
                UpdateErrorView::Io("Failed to write file: "@ + m),
            )
            &&& ended(
                DownloadEvent::Contents(Err(m)),
                UpdateErrorView::Io("Failed to read file for verification: "@ + m),
            )
            &&& verify_fault(d.key, d.signature, data, true) matches Some(fault) ==> ended(
                DownloadEvent::Contents(Ok(data)),
                UpdateErrorView::Verification("Signature verification failed: "@ + fault),
            )
            &&& ended(
                DownloadEvent::Renamed(Err(m)),
                UpdateErrorView::Io("Failed to rename verified file: "@ + m),
            )
        }),
{
}

/// A download asks for what it waits for: what is to be done and what can be answered go together,
/// and the requests go to where the file and its signature are, with the app's user agent.
pub proof fn law_actions_fit_their_answers(d: DownloadView, event: DownloadEvent)
    ensures
        d.awaits(event) ==> (match event {
            DownloadEvent::Signature(_) => d.action() matches DownloadActionView::FetchSignature(r)
                && r.url == d.signature_url && r.user_agent == d.user_agent && r.accept is None
                && r.timeout_secs == 600,
            DownloadEvent::Polled(_) => d.action() is PollCancelled,
            DownloadEvent::Update(_) => d.action() matches DownloadActionView::FetchUpdate(r)
                && r.url == d.url && r.user_agent == d.user_agent && r.accept is None
                && r.timeout_secs == 600,
            DownloadEvent::Directory(_) => d.action() is LocateDirectory,
            DownloadEvent::Created(_) => d.action() matches DownloadActionView::CreateTemp {
                file_name,
                temp_name,
            } && file_name == after_last(d.url, '/') && temp_name == file_name + ".tmp"@,
            DownloadEvent::Chunk(_) => d.action() is ReadChunk,
            DownloadEvent::Written(_) => d.action() is WriteChunk,
            DownloadEvent::Reported => d.action() == (DownloadActionView::ReportProgress {
                downloaded: d.downloaded,
                total: d.total,
            }),
            DownloadEvent::Contents(_) => d.action() is ReadBack,
            DownloadEvent::Renamed(_) => d.action() is Rename,
        }),
        d.action() is Finish <==> d.stage == Stage::Done,
        d.stage != Stage::Done ==> exists|answer: DownloadEvent| d.awaits(answer),
{
    let m = Seq::<char>::empty();
    let answer = match d.stage {
        Stage::Signature => DownloadEvent::Signature(Ok(m)),
        Stage::PollBeforeUpdate | Stage::PollBeforeRead => DownloadEvent::Polled(false),
        Stage::Update => DownloadEvent::Update(Ok(None)),
        Stage::Directory => DownloadEvent::Directory(Ok(())),
        Stage::Create => DownloadEvent::Created(Ok(())),
        Stage::Read => DownloadEvent::Chunk(Err(m)),
        Stage::Write => DownloadEvent::Written(Ok(())),
        Stage::Report => DownloadEvent::Reported,
        Stage::ReadBack => DownloadEvent::Contents(Err(m)),
        _ => DownloadEvent::Renamed(Ok(())),
    };
    if d.stage != Stage::Done {
        assert(d.awaits(answer));
    }
}

/// The announced size is the number that the header gives, and zero when it gives none.
pub proof fn law_size_is_the_number_in_the_header(header: Seq<char>, n: u64)
    ensures
        announced_size(None) == 0,
        number(header) == Some(n) ==> announced_size(Some(header)) == n,
        number(header) is None ==> announced_size(Some(header)) == 0,
{
}

/// A finding is a verification error with the label before it, and no finding is in order.
pub proof fn law_findings_are_verification_errors(label: Seq<char>, fault: Seq<char>)
    ensures
        verdict(label, None) == Ok::<(), UpdateErrorView>(()),
        verdict(label, Some(fault)) == Err::<(), _>(UpdateErrorView::Verification(label + fault)),
{
}

/// The answers of a transfer that comes in the given chunks without trouble.
pub open spec fn smooth_chunks(chunks: Seq<u64>) -> Seq<DownloadEvent>
    decreases chunks.len(),
{
    if chunks.len() == 0 {
        Seq::empty()
    } else {
        smooth_chunks(chunks.drop_last()).push(DownloadEvent::Polled(false)).push(
            DownloadEvent::Chunk(Ok(chunks.last())),
        ).push(DownloadEvent::Written(Ok(()))).push(DownloadEvent::Reported)
    }
}

/// The answers of a download without trouble: the signature, the answer to the request, the chunks,
/// the end of the file, and its contents.
pub open spec fn smooth_events(
    signature: Seq<char>,
    header: Option<Seq<char>>,
    chunks: Seq<u64>,
    contents: Seq<u8>,
) -> Seq<DownloadEvent> {
    (smooth_start(signature, header) + smooth_chunks(chunks)).push(
        DownloadEvent::Polled(false),
    ).push(DownloadEvent::Chunk(Ok(0))).push(DownloadEvent::Contents(Ok(contents))).push(
        DownloadEvent::Renamed(Ok(())),
    )
}

/// The answers of a download without trouble, up to the first chunk.
pub open spec fn smooth_start(signature: Seq<char>, header: Option<Seq<char>>) -> Seq<
    DownloadEvent,
> {
    Seq::empty().push(DownloadEvent::Signature(Ok(signature))).push(
        DownloadEvent::Polled(false),
    ).push(DownloadEvent::Update(Ok(header))).push(DownloadEvent::Directory(Ok(()))).push(
        DownloadEvent::Created(Ok(())),
    )
}

/// The bytes of all chunks.
pub open spec fn chunk_sum(chunks: Seq<u64>) -> nat
    decreases chunks.len(),
{
    if chunks.len() == 0 {
        0
    } else {
        chunk_sum(chunks.drop_last()) + chunks.last() as nat
    }
}

/// One more answer is one more step.
proof fn lemma_one_more(start: DownloadView, events: Seq<DownloadEvent>, event: DownloadEvent)
    ensures
        run(start, events.push(event)) == run(start, events).after(event),
        orderly(start, events.push(event)) <==> orderly(start, events) && run(start, events).awaits(
            event,
        ),
{
    let more = events.push(event);
    assert(more.drop_last() =~= events);
    assert(more.last() == event);
}

proof fn lemma_smooth_start(
    config: UpdaterConfig,
    url: Seq<char>,
    signature_url: Seq<char>,
    signature: Seq<char>,
    header: Option<Seq<char>>,
)
    requires
        signature_fault(signature) is None,
    ensures
        ({
            let start = started(config, url, signature_url);
            let events = smooth_start(signature, header);
            &&& orderly(start, events)
            &&& run(start, events) == (DownloadView {
                signature,
                total: announced_size(header),
                temp: true,
                stage: Stage::PollBeforeRead,
                ..start
            })
        }),
{
    let start = started(config, url, signature_url);
    let e0 = Seq::<DownloadEvent>::empty();
    let e1 = e0.push(DownloadEvent::Signature(Ok(signature)));
    let e2 = e1.push(DownloadEvent::Polled(false));
    let e3 = e2.push(DownloadEvent::Update(Ok(header)));
    let e4 = e3.push(DownloadEvent::Directory(Ok(())));
    assert(run(start, e0) == start && orderly(start, e0));
    lemma_one_more(start, e0, DownloadEvent::Signature(Ok(signature)));
    lemma_one_more(start, e1, DownloadEvent::Polled(false));
    lemma_one_more(start, e2, DownloadEvent::Update(Ok(header)));
    lemma_one_more(start, e3, DownloadEvent::Directory(Ok(())));
    lemma_one_more(start, e4, DownloadEvent::Created(Ok(())));
}

proof fn lemma_smooth_chunks(
    start: DownloadView,
    before: Seq<DownloadEvent>,
    chunks: Seq<u64>,
)
    requires
        orderly(start, before),
        run(start, before).stage == Stage::PollBeforeRead,
        run(start, before).downloaded == 0,
        run(start, before).pending == 0,
        forall|i: int| 0 <= i < chunks.len() ==> #[trigger] chunks[i] > 0,
        chunk_sum(chunks) <= u64::MAX,
    ensures
        orderly(start, before + smooth_chunks(chunks)),
        run(start, before + smooth_chunks(chunks)) == (DownloadView {
            downloaded: chunk_sum(chunks) as u64,
            ..run(start, before)
        }),
    decreases chunks.len(),
{
    if chunks.len() == 0 {
        assert(before + smooth_chunks(chunks) =~= before);
    } else {
        let init = chunks.drop_last();
        let n = chunks.last();
        assert(chunks[chunks.len() - 1] > 0);
        assert forall|i: int| 0 <= i < init.len() implies #[trigger] init[i] > 0 by {
            assert(init[i] == chunks[i]);
        }
        lemma_smooth_chunks(start, before, init);
        let e0 = before + smooth_chunks(init);
        let e1 = e0.push(DownloadEvent::Polled(false));
        let e2 = e1.push(DownloadEvent::Chunk(Ok(n)));
        let e3 = e2.push(DownloadEvent::Written(Ok(())));
        let e4 = e3.push(DownloadEvent::Reported);
        assert(before + smooth_chunks(chunks) =~= e4);
        lemma_one_more(start, e0, DownloadEvent::Polled(false));
        lemma_one_more(start, e1, DownloadEvent::Chunk(Ok(n)));
        lemma_one_more(start, e2, DownloadEvent::Written(Ok(())));
        lemma_one_more(start, e3, DownloadEvent::Reported);
    }
}

/// A genuine update is kept: where the key and the signature can be read and the signature vouches
/// for the contents, a download that meets no trouble succeeds, in however many chunks of whatever
/// size the file comes, and whatever size was announced. All of it has then been counted.
pub proof fn law_genuine_updates_are_kept(
    config: UpdaterConfig,
    url: Seq<char>,
    signature_url: Seq<char>,
    signature: Seq<char>,
    header: Option<Seq<char>>,
    chunks: Seq<u64>,
    contents: Seq<u8>,
)
    requires
        signature_fault(signature) is None,
        verify_fault(config.minisign_public_key@, signature, contents, true) is None,
        forall|i: int| 0 <= i < chunks.len() ==> #[trigger] chunks[i] > 0,
        chunk_sum(chunks) <= u64::MAX,
    ensures
        ({
            let start = started(config, url, signature_url);
            let events = smooth_events(signature, header, chunks, contents);
            let d = run(start, events);
            &&& orderly(start, events)
            &&& d.outcome == Some(Ok::<(), UpdateErrorView>(()))
            &&& d.contents == contents
            &&& d.downloaded == chunk_sum(chunks)
            &&& d.total == announced_size(header)
        }),
{
    let start = started(config, url, signature_url);
    let e0 = smooth_start(signature, header) + smooth_chunks(chunks);
    lemma_smooth_start(config, url, signature_url, signature, header);
    lemma_smooth_chunks(start, smooth_start(signature, header), chunks);
    let e1 = e0.push(DownloadEvent::Polled(false));
    let e2 = e1.push(DownloadEvent::Chunk(Ok(0)));
    let e3 = e2.push(DownloadEvent::Contents(Ok(contents)));
    lemma_one_more(start, e0, DownloadEvent::Polled(false));
    lemma_one_more(start, e1, DownloadEvent::Chunk(Ok(0)));
    lemma_one_more(start, e2, DownloadEvent::Contents(Ok(contents)));
    lemma_one_more(start, e3, DownloadEvent::Renamed(Ok(())));
}

/// A download begins with the request for the signature, and with nothing done yet.
pub proof fn law_downloads_begin_with_the_signature(
    config: UpdaterConfig,
    url: Seq<char>,
    signature_url: Seq<char>,
)
    ensures
        ({
            let d = started(config, url, signature_url);
            &&& d.stage == Stage::Signature
            &&& d.key == config.minisign_public_key@
            &&& d.user_agent == config.user_agent@
            &&& d.url == url
            &&& d.signature_url == signature_url
            &&& d.downloaded == 0
            &&& d.pending == 0
            &&& !d.temp
            &&& d.outcome is None
        }),
{
}

/// The name of a downloaded file is all that follows the last slash of its URL.
pub proof fn law_files_are_named_by_their_urls(head: Seq<char>, name: Seq<char>)
    requires
        free_of(name, '/'),
    ensures
        after_last(head + seq!['/'] + name, '/') == name,
        after_last(name, '/') == name,
{
    law_the_last_part_follows_the_last_separator(head, name, '/');
}

/// What is written has been read, and is counted once: a chunk is set aside when it is read, and
/// counted when it is written.
pub proof fn law_chunks_are_counted_when_written(d: DownloadView, event: DownloadEvent)
    requires
        d.awaits(event),
        d.downloaded + d.pending <= u64::MAX,
    ensures
        event matches DownloadEvent::Chunk(Ok(n)) ==> n > 0 ==> d.after(event).pending == n,
        event == DownloadEvent::Written(Ok::<(), Seq<char>>(())) ==> d.after(event).downloaded
            == d.downloaded + d.pending && d.after(event).pending == 0,
        !(event is Written) ==> d.after(event).downloaded == d.downloaded,
{
}

/// Actions, results and failures are seen as they are.
pub proof fn law_actions_are_seen_as_they_are(
    request: HttpRequest,
    file_name: String,
    temp_name: String,
    downloaded: u64,
    total: u64,
    remove_temp: bool,
    http: HttpFailure,
    error: UpdateError,
)
    ensures
        DownloadAction::FetchSignature(request)@ == DownloadActionView::FetchSignature(request@),
        DownloadAction::PollCancelled@ is PollCancelled,
        DownloadAction::FetchUpdate(request)@ == DownloadActionView::FetchUpdate(request@),
        DownloadAction::LocateDirectory@ is LocateDirectory,
        (DownloadAction::CreateTemp { file_name, temp_name })@ == (DownloadActionView::CreateTemp {
            file_name: file_name@,
            temp_name: temp_name@,
        }),
        DownloadAction::ReadChunk@ is ReadChunk,
        DownloadAction::WriteChunk@ is WriteChunk,
        (DownloadAction::ReportProgress { downloaded, total })@ == (
        DownloadActionView::ReportProgress { downloaded, total }),
        DownloadAction::ReadBack@ is ReadBack,
        DownloadAction::Rename@ is Rename,
        (DownloadAction::Finish { remove_temp })@ == (DownloadActionView::Finish { remove_temp }),
        SignatureFailure::Http(http)@ == SignatureFailureView::Http(http@),
        SignatureFailure::Body(file_name)@ == SignatureFailureView::Body(file_name@),
        done_view(Ok(())) == Ok::<(), UpdateErrorView>(()),
        done_view(Err(error)) == Err::<(), _>(error@),
        io_view(Ok(())) == Ok::<(), Seq<char>>(()),
        io_view(Err(file_name)) == Err::<(), _>(file_name@),
{
}

} // verus!
