//! Looking for an update.
//!
//! A check asks for a release with the request that [`check_request`] gives, and hands what came
//! back to [`check_for_updates`].

use vstd::prelude::*;
use vstd::slice::slice_subrange;
use vstd::utf8::{
    decode_utf8, decode_utf8_encode_utf8, encode_utf8, encode_utf8_decode_utf8,
    encode_utf8_valid_utf8, is_ascii_chars, is_ascii_chars_encode_utf8, is_char_boundary,
    is_char_boundary_iff_not_is_continuation_byte, valid_utf8_split,
};

use crate::config::UpdaterConfig;
use crate::error::{labelled, UpdateError, UpdateErrorView};
use crate::http::{
    map_http_err, HttpFailure, HttpFailureView, HttpRequest, HttpRequestView, RELEASE_TIMEOUT_SECS,
};
use crate::platform::{asset_name, Platform};
use crate::release::{
    law_found_when_listed, require_asset_pair, required_pair, url_of, GithubRelease, ReleaseView,
};
use crate::semver::{at_least, is_at_least, parse_semver, version};
use crate::text::{
    all_white, begins, contains, ends, free_of, from_chars, holds, is_white, joined,
    law_joined_texts_come_apart, law_lines_end_at_line_feeds, law_lines_hold_no_line_feeds,
    law_trimming_takes_only_white_space, law_words_are_set_apart, lines, pieces, same, split,
    split_lines, split_words, starts_with, to_chars, trim, trimmed, words,
};

verus! {

/// Which release stream to check against.
#[derive(Debug, Clone, Copy, PartialEq, Eq, Structural)]
pub enum UpdateChannel {
    /// Compare semver tags against the latest GitHub release.
    Stable,
    /// Compare short commit hashes against a rolling `"latest"` pre-release tag.
    Dev,
}

impl Default for UpdateChannel {
    fn default() -> (channel: Self)
        ensures
            channel == UpdateChannel::Stable,
    {
        UpdateChannel::Stable
    }
}

/// An update that was found.
#[derive(Debug)]
pub struct UpdateAvailableResult {
    /// The version it brings.
    pub latest_version: String,
    /// Where to get the file.
    pub download_url: String,
    /// Where to get the file's signature.
    pub signature_url: String,
    /// What is new, in markdown.
    pub release_notes: String,
}

/// What a check found.
#[derive(Debug)]
pub enum UpdateCheckOutcome {
    /// There is an update.
    UpdateAvailable(UpdateAvailableResult),
    /// There is none. Holds the latest version.
    UpToDate(String),
}

/// [`UpdateAvailableResult`] with its texts as sequences of characters.
pub struct UpdateAvailableView {
    pub latest_version: Seq<char>,
    pub download_url: Seq<char>,
    pub signature_url: Seq<char>,
    pub release_notes: Seq<char>,
}

/// [`UpdateCheckOutcome`] with its texts as sequences of characters.
pub enum UpdateCheckView {
    UpdateAvailable(UpdateAvailableView),
    UpToDate(Seq<char>),
}

impl View for UpdateAvailableResult {
    type V = UpdateAvailableView;

    open spec fn view(&self) -> UpdateAvailableView {
        UpdateAvailableView {
            latest_version: self.latest_version@,
            download_url: self.download_url@,
            signature_url: self.signature_url@,
            release_notes: self.release_notes@,
        }
    }
}

impl View for UpdateCheckOutcome {
    type V = UpdateCheckView;

    open spec fn view(&self) -> UpdateCheckView {
        match self {
            UpdateCheckOutcome::UpdateAvailable(r) => UpdateCheckView::UpdateAvailable(r@),
            UpdateCheckOutcome::UpToDate(v) => UpdateCheckView::UpToDate(v@),
        }
    }
}

/// The result of a check with its texts as sequences of characters.
pub open spec fn check_view(r: Result<UpdateCheckOutcome, UpdateError>) -> Result<
    UpdateCheckView,
    UpdateErrorView,
> {
    match r {
        Ok(outcome) => Ok(outcome@),
        Err(e) => Err(e@),
    }
}

/// Why a release could not be had.
#[derive(Debug)]
pub enum ReleaseFailure {
    /// The request failed.
    Http(HttpFailure),
    /// The answer is not a release. Holds what the reader said.
    Json(String),
}

/// [`ReleaseFailure`] with its text as a sequence of characters.
pub enum ReleaseFailureView {
    Http(HttpFailureView),
    Json(Seq<char>),
}

impl View for ReleaseFailure {
    type V = ReleaseFailureView;

    open spec fn view(&self) -> ReleaseFailureView {
        match self {
            ReleaseFailure::Http(f) => ReleaseFailureView::Http(f@),
            ReleaseFailure::Json(m) => ReleaseFailureView::Json(m@),
        }
    }
}

impl ReleaseFailureView {
    /// The error that the failure is reported as.
    pub open spec fn error(self) -> UpdateErrorView {
        match self {
            ReleaseFailureView::Http(f) => f.error(),
            ReleaseFailureView::Json(m) => UpdateErrorView::InvalidResponse(
                "Failed to parse release JSON: "@ + m,
            ),
        }
    }
}

/// Turns the failure to get a release into the error to report.
pub fn release_error(failure: ReleaseFailure) -> (error: UpdateError)
    ensures
        error@ == failure@.error(),
{
    match failure {
        ReleaseFailure::Http(f) => map_http_err(f),
        ReleaseFailure::Json(m) => UpdateError::InvalidResponse(
            labelled("Failed to parse release JSON: ", m.as_str()),
        ),
    }
}

/// What came back for a request for a release, with its texts as sequences of characters.
pub open spec fn reply_view(reply: Result<GithubRelease, ReleaseFailure>) -> Result<
    ReleaseView,
    ReleaseFailureView,
> {
    match reply {
        Ok(release) => Ok(release@),
        Err(f) => Err(f@),
    }
}

/// Where the latest release of a repository is described.
pub open spec fn latest_url(github_repo: Seq<char>) -> Seq<char> {
    "https://api.github.com/repos/"@ + github_repo + "/releases/latest"@
}

/// Where the release of a repository with the given tag is described.
pub open spec fn tag_url(github_repo: Seq<char>, tag: Seq<char>) -> Seq<char> {
    "https://api.github.com/repos/"@ + github_repo + "/releases/tags/"@ + tag
}

/// The request for a release that is described at `url`.
pub open spec fn release_request(config: UpdaterConfig, url: Seq<char>) -> HttpRequestView {
    HttpRequestView {
        url,
        user_agent: config.user_agent@,
        accept: Some("application/vnd.github+json"@),
        timeout_secs: RELEASE_TIMEOUT_SECS,
    }
}

/// The request for the latest release.
pub fn fetch_latest_release(config: &UpdaterConfig) -> (request: HttpRequest)
    ensures
        request@ == release_request(*config, latest_url(config.github_repo@)),
{
    let url = String::from("https://api.github.com/repos/").concat(
        config.github_repo.as_str(),
    ).concat("/releases/latest");
    fetch_release_url(config, url)
}

/// The request for the release with the given tag.
pub fn fetch_release_by_tag(config: &UpdaterConfig, tag: &str) -> (request: HttpRequest)
    ensures
        request@ == release_request(*config, tag_url(config.github_repo@, tag@)),
{
    let url = String::from("https://api.github.com/repos/").concat(
        config.github_repo.as_str(),
    ).concat("/releases/tags/").concat(tag);
    fetch_release_url(config, url)
}

/// The request for the release that is described at `url`.
pub fn fetch_release_url(config: &UpdaterConfig, url: String) -> (request: HttpRequest)
    ensures
        request@ == release_request(*config, url@),
{
    HttpRequest {
        url,
        user_agent: config.user_agent.clone(),
        accept: Some(String::from("application/vnd.github+json")),
        timeout_secs: RELEASE_TIMEOUT_SECS,
    }
}

/// The error for an app whose own version cannot be read.
pub open spec fn bad_current_version() -> UpdateErrorView {
    UpdateErrorView::InvalidVersion("Current version is not a valid semver."@)
}

/// What is to be asked for, before a check on a channel can be made. On the stable channel an app
/// whose own version cannot be read gets an error right away, and nothing is asked.
pub fn check_request(config: &UpdaterConfig, channel: UpdateChannel) -> (request: Result<
    HttpRequest,
    UpdateError,
>)
    ensures
        request is Err <==> channel == UpdateChannel::Stable && version(
            config.current_version@,
        ) is None,
        request matches Err(e) ==> e@ == bad_current_version(),
        request matches Ok(r) ==> r@ == release_request(
            *config,
            match channel {
                UpdateChannel::Stable => latest_url(config.github_repo@),
                UpdateChannel::Dev => tag_url(config.github_repo@, "latest"@),
            },
        ),
{
    match channel {
        UpdateChannel::Stable => match parse_semver(config.current_version.as_str()) {
            Some(_) => Ok(fetch_latest_release(config)),
            None => Err(
                UpdateError::InvalidVersion(String::from("Current version is not a valid semver.")),
            ),
        },
        UpdateChannel::Dev => Ok(fetch_release_by_tag(config, "latest")),
    }
}

/// The update that a release offers, under the given version and with the given notes.
pub open spec fn offer(
    platform: Platform,
    config: UpdaterConfig,
    release: ReleaseView,
    latest_version: Seq<char>,
    release_notes: Seq<char>,
) -> Result<UpdateCheckView, UpdateErrorView> {
    match required_pair(platform, config, release) {
        Ok(pair) => Ok(
            UpdateCheckView::UpdateAvailable(
                UpdateAvailableView {
                    latest_version,
                    download_url: pair.0,
                    signature_url: pair.1,
                    release_notes,
                },
            ),
        ),
        Err(e) => Err(e),
    }
}

/// Offers the update that a release holds.
fn offer_update(
    platform: Platform,
    config: &UpdaterConfig,
    release: &GithubRelease,
    latest_version: String,
    release_notes: String,
) -> (outcome: Result<UpdateCheckOutcome, UpdateError>)
    ensures
        check_view(outcome) == offer(
            platform,
            *config,
            release@,
            latest_version@,
            release_notes@,
        ),
{
    match require_asset_pair(platform, config, release) {
        Ok((download_url, signature_url)) => Ok(
            UpdateCheckOutcome::UpdateAvailable(
                UpdateAvailableResult {
                    latest_version,
                    download_url,
                    signature_url,
                    release_notes,
                },
            ),
        ),
        Err(e) => Err(e),
    }
}

/// The notes of a release; empty when there are none.
fn notes_of(release: &GithubRelease) -> (notes: String)
    ensures
        notes@ == release@.notes,
{
    match &release.body {
        Some(body) => body.clone(),
        None => String::from(""),
    }
}

/// What a check on the stable channel comes to: the release counts as an update exactly when its
/// version is later than the app's.
pub open spec fn stable_outcome(
    platform: Platform,
    config: UpdaterConfig,
    reply: Result<ReleaseView, ReleaseFailureView>,
) -> Result<UpdateCheckView, UpdateErrorView> {
    match (version(config.current_version@), reply) {
        (None, _) => Err(bad_current_version()),
        (Some(_), Err(f)) => Err(f.error()),
        (Some(current), Ok(release)) => match version(release.tag_name) {
            None => Err(
                UpdateErrorView::InvalidResponse("Latest release tag is not a valid semver."@),
            ),
            Some(latest) => if at_least(current, latest) {
                Ok(UpdateCheckView::UpToDate(release.tag_name))
            } else {
                offer(platform, config, release, release.tag_name, release.notes)
            },
        },
    }
}

/// Checks on the stable channel.
pub fn check_stable(
    platform: Platform,
    config: &UpdaterConfig,
    reply: Result<GithubRelease, ReleaseFailure>,
) -> (outcome: Result<UpdateCheckOutcome, UpdateError>)
    ensures
        check_view(outcome) == stable_outcome(platform, *config, reply_view(reply)),
{
    let current = match parse_semver(config.current_version.as_str()) {
        Some(current) => current,
        None => {
            return Err(
                UpdateError::InvalidVersion(String::from("Current version is not a valid semver.")),
            );
        },
    };
    let release = match reply {
        Ok(release) => release,
        Err(f) => {
            return Err(release_error(f));
        },
    };
    let latest = match parse_semver(release.tag_name.as_str()) {
        Some(latest) => latest,
        None => {
            return Err(
                UpdateError::InvalidResponse(
                    String::from("Latest release tag is not a valid semver."),
                ),
            );
        },
    };
    if is_at_least(current, latest) {
        return Ok(UpdateCheckOutcome::UpToDate(release.tag_name));
    }
    let notes = notes_of(&release);
    offer_update(platform, config, &release, release.tag_name.clone(), notes)
}

/// Whether a commit hash can be cut after its seventh byte without splitting a character.
pub open spec fn cuts_cleanly(commit: Seq<char>) -> bool {
    encode_utf8(commit).len() > 7 ==> is_char_boundary(encode_utf8(commit), 7)
}

/// The first seven bytes of a commit hash; all of it when it is shorter.
pub open spec fn short_commit(commit: Seq<char>) -> Seq<char> {
    if encode_utf8(commit).len() > 7 {
        decode_utf8(encode_utf8(commit).subrange(0, 7))
    } else {
        commit
    }
}

/// Shortens a commit hash to seven bytes.
pub fn shorten(commit: &str) -> (short: &str)
    requires
        cuts_cleanly(commit@),
    ensures
        short@ == short_commit(commit@),
{
    if commit.as_bytes().len() > 7 {
        let halves = commit.split_at(7);
        proof {
            encode_utf8_decode_utf8(halves.0@);
        }
        halves.0
    } else {
        commit
    }
}

/// Whether a line of release notes stands for a commit.
pub open spec fn is_commit_line() -> spec_fn(Seq<char>) -> bool {
    |line: Seq<char>| begins(trimmed(line), "- "@)
}

/// The lines of release notes that stand for commits, newest first.
pub open spec fn commit_lines(notes: Seq<char>) -> Seq<Seq<char>> {
    lines(notes).filter(is_commit_line())
}

/// The hash that the newest commit line gives.
pub open spec fn latest_hash(commits: Seq<Seq<char>>) -> Seq<char> {
    if commits.len() > 0 && words(commits[0]).len() > 1 {
        words(commits[0])[1]
    } else {
        "latest"@
    }
}

/// The index of the first text that holds `needle`, or their number when none does.
pub open spec fn first_holding(list: Seq<Seq<char>>, needle: Seq<char>) -> int
    decreases list.len(),
{
    if list.len() == 0 || holds(list[0], needle) {
        0
    } else {
        1 + first_holding(list.drop_first(), needle)
    }
}

/// What a check on the dev channel comes to. The release's notes list the commits, newest first.
/// The app is up to date when no commit is listed, or when its own is the newest. Otherwise there
/// is an update; its notes are the commit lines above the app's own, or, where that is not listed,
/// all of the release's.
pub open spec fn dev_outcome(
    platform: Platform,
    config: UpdaterConfig,
    reply: Result<ReleaseView, ReleaseFailureView>,
) -> Result<UpdateCheckView, UpdateErrorView> {
    match reply {
        Err(f) => Err(f.error()),
        Ok(release) => {
            let commits = commit_lines(release.notes);
            let short = short_commit(config.current_commit@);
            let latest = latest_hash(commits);
            let position = first_holding(commits, short);
            if commits.len() == 0 {
                Ok(UpdateCheckView::UpToDate("dev-"@ + short))
            } else if short == latest || position == 0 {
                Ok(UpdateCheckView::UpToDate("dev-"@ + latest))
            } else if position < commits.len() {
                offer(
                    platform,
                    config,
                    release,
                    "dev-"@ + latest,
                    joined(commits.take(position), "\n"@),
                )
            } else {
                offer(platform, config, release, "dev-"@ + latest, release.notes)
            }
        },
    }
}

/// Keeps the lines that stand for commits.
fn keep_commit_lines<'a>(list: &Vec<&'a [char]>) -> (commits: Vec<&'a [char]>)
    ensures
        pieces(commits@) == pieces(list@).filter(is_commit_line()),
{
    let marker = to_chars("- ");
    let mut commits: Vec<&'a [char]> = Vec::new();
    let ghost all = pieces(list@);
    let mut i: usize = 0;
    proof {
        reveal(Seq::filter);
        assert(all.take(0).filter(is_commit_line()) =~= pieces(commits@));
    }
    while i < list.len()
        invariant
            i <= list@.len(),
            all == pieces(list@),
            marker@ == "- "@,
            pieces(commits@) == all.take(i as int).filter(is_commit_line()),
        decreases list@.len() - i,
    {
        let line = list[i];
        proof {
            reveal(Seq::filter);
            assert(all.take(i + 1).drop_last() =~= all.take(i as int));
        }
        let ghost done = pieces(commits@);
        if starts_with(trim(line), marker.as_slice()) {
            commits.push(line);
            assert(pieces(commits@) =~= done.push(line@));
        }
        i += 1;
    }
    assert(all.take(all.len() as int) =~= all);
    commits
}

/// Finds the first line that holds `needle`.
fn position_of(list: &Vec<&[char]>, needle: &[char]) -> (position: usize)
    ensures
        position == first_holding(pieces(list@), needle@),
        position <= list@.len(),
{
    let ghost all = pieces(list@);
    let mut i: usize = 0;
    assert(all.skip(0) =~= all);
    while i < list.len()
        invariant
            i <= list@.len(),
            all == pieces(list@),
            first_holding(all, needle@) == i + first_holding(all.skip(i as int), needle@),
        decreases list@.len() - i,
    {
        if contains(list[i], needle) {
            return i;
        }
        assert(all.skip(i as int).drop_first() =~= all.skip(i + 1));
        i += 1;
    }
    i
}

/// Joins the first `n` lines with line feeds.
fn join_lines(list: &Vec<&[char]>, n: usize) -> (out: String)
    requires
        n <= list@.len(),
    ensures
        out@ == joined(pieces(list@).take(n as int), "\n"@),
{
    let mut out = String::new();
    let ghost all = pieces(list@);
    let mut i: usize = 0;
    while i < n
        invariant
            i <= n <= list@.len(),
            all == pieces(list@),
            out@ == joined(all.take(i as int), "\n"@),
        decreases n - i,
    {
        assert(all.take(i + 1).drop_last() =~= all.take(i as int));
        let ghost done = out@;
        if i > 0 {
            out.append("\n");
        }
        out.append(from_chars(list[i]).as_str());
        assert(i == 0 ==> done + list@[i as int]@ =~= list@[i as int]@);
        i += 1;
    }
    out
}

/// Checks on the dev channel.
pub fn check_dev(
    platform: Platform,
    config: &UpdaterConfig,
    reply: Result<GithubRelease, ReleaseFailure>,
) -> (outcome: Result<UpdateCheckOutcome, UpdateError>)
    requires
        reply is Ok ==> cuts_cleanly(config.current_commit@),
    ensures
        check_view(outcome) == dev_outcome(platform, *config, reply_view(reply)),
{
    let release = match reply {
        Ok(release) => release,
        Err(f) => {
            return Err(release_error(f));
        },
    };
    let raw_notes = notes_of(&release);
    let note_chars = to_chars(raw_notes.as_str());
    let all_lines = split_lines(note_chars.as_slice());
    let commits = keep_commit_lines(&all_lines);
    let ghost listed = commit_lines(release@.notes);
    assert(pieces(commits@) == listed);
    let short = shorten(config.current_commit.as_str());
    if commits.len() == 0 {
        return Ok(UpdateCheckOutcome::UpToDate(labelled("dev-", short)));
    }
    let newest = split_words(commits[0]);
    assert(pieces(commits@)[0] == commits@[0]@);
    let latest = if newest.len() > 1 {
        assert(pieces(newest@)[1] == newest@[1]@);
        from_chars(newest[1])
    } else {
        String::from("latest")
    };
    let version = labelled("dev-", latest.as_str());
    let short_chars = to_chars(short);
    let latest_chars = to_chars(latest.as_str());
    if same(short_chars.as_slice(), latest_chars.as_slice()) {
        return Ok(UpdateCheckOutcome::UpToDate(version));
    }
    let position = position_of(&commits, short_chars.as_slice());
    if position == 0 {
        Ok(UpdateCheckOutcome::UpToDate(version))
    } else if position < commits.len() {
        let new_notes = join_lines(&commits, position);
        offer_update(platform, config, &release, version, new_notes)
    } else {
        // The commit is not in recent history; assume it's old and offer the full update.
        offer_update(platform, config, &release, version, raw_notes)
    }
}

/// Check whether an update is available.
///
/// `reply` is what came back for [`check_request`]. On [`UpdateChannel::Stable`] the app's version
/// is compared, on [`UpdateChannel::Dev`] its commit. The asset to download is the one that fits
/// the platform and the way the app was installed.
///
/// # Errors
///
/// Returns [`UpdateError`] on network failure, HTTP error, invalid version strings, or missing
/// release assets.
pub fn check_for_updates(
    platform: Platform,
    config: &UpdaterConfig,
    channel: UpdateChannel,
    reply: Result<GithubRelease, ReleaseFailure>,
) -> (outcome: Result<UpdateCheckOutcome, UpdateError>)
    requires
        channel == UpdateChannel::Dev && reply is Ok ==> cuts_cleanly(config.current_commit@),
    ensures
        check_view(outcome) == (match channel {
            UpdateChannel::Stable => stable_outcome(platform, *config, reply_view(reply)),
            UpdateChannel::Dev => dev_outcome(platform, *config, reply_view(reply)),
        }),
{
    match channel {
        UpdateChannel::Stable => check_stable(platform, config, reply),
        UpdateChannel::Dev => check_dev(platform, config, reply),
    }
}

/// Where [`check_request`] has nothing to ask for, no reply could have led to anything but the same
/// error.
pub proof fn law_unreadable_version_needs_no_reply(
    platform: Platform,
    config: UpdaterConfig,
    reply: Result<ReleaseView, ReleaseFailureView>,
)
    requires
        version(config.current_version@) is None,
    ensures
        stable_outcome(platform, config, reply) == Err::<UpdateCheckView, _>(bad_current_version()),
{
}

/// An app that has taken an update from the stable channel is up to date: the release that it was
/// offered is no update for it any more.
pub proof fn law_no_second_stable_update(
    platform: Platform,
    config: UpdaterConfig,
    release: ReleaseView,
)
    requires
        config.current_version@ == release.tag_name,
        version(release.tag_name) is Some,
    ensures
        stable_outcome(platform, config, Ok(release)) == Ok::<_, UpdateErrorView>(
            UpdateCheckView::UpToDate(release.tag_name),
        ),
{
}

/// The stable channel never offers a version that is not later than the app's.
pub proof fn law_stable_updates_are_later(
    platform: Platform,
    config: UpdaterConfig,
    reply: Result<ReleaseView, ReleaseFailureView>,
)
    ensures
        stable_outcome(platform, config, reply) matches Ok(UpdateCheckView::UpdateAvailable(u))
            ==> {
            &&& version(config.current_version@) is Some
            &&& version(u.latest_version) is Some
            &&& !at_least(version(config.current_version@)->0, version(u.latest_version)->0)
        },
{
}

/// An update is only offered together with a signature to check it by: both URLs come from the
/// release's own list of files, under the name of the app's asset and that name with `.minisig`.
pub proof fn law_offers_come_with_signatures(
    platform: Platform,
    config: UpdaterConfig,
    channel: UpdateChannel,
    release: ReleaseView,
)
    ensures
        ({
            let outcome = match channel {
                UpdateChannel::Stable => stable_outcome(platform, config, Ok(release)),
                UpdateChannel::Dev => dev_outcome(platform, config, Ok(release)),
            };
            let name = asset_name(platform, config);
            outcome matches Ok(UpdateCheckView::UpdateAvailable(u)) ==> {
                &&& url_of(release.assets, name) == Some(u.download_url)
                &&& url_of(release.assets, name + ".minisig"@) == Some(u.signature_url)
            }
        }),
{
}

/// An app built from the newest commit is up to date on the dev channel.
pub proof fn law_newest_commit_is_up_to_date(
    platform: Platform,
    config: UpdaterConfig,
    release: ReleaseView,
)
    requires
        commit_lines(release.notes).len() > 0,
        short_commit(config.current_commit@) == latest_hash(commit_lines(release.notes)),
    ensures
        dev_outcome(platform, config, Ok(release)) == Ok::<_, UpdateErrorView>(
            UpdateCheckView::UpToDate("dev-"@ + short_commit(config.current_commit@)),
        ),
{
}

/// Notes that list no commit never lead to an update on the dev channel.
pub proof fn law_no_commits_no_update(
    platform: Platform,
    config: UpdaterConfig,
    release: ReleaseView,
)
    requires
        commit_lines(release.notes).len() == 0,
    ensures
        dev_outcome(platform, config, Ok(release)) == Ok::<_, UpdateErrorView>(
            UpdateCheckView::UpToDate("dev-"@ + short_commit(config.current_commit@)),
        ),
{
}

/// `first_holding` points at the first text that holds the needle.
pub proof fn lemma_first_holding(list: Seq<Seq<char>>, needle: Seq<char>)
    ensures
        0 <= first_holding(list, needle) <= list.len(),
        first_holding(list, needle) < list.len() ==> holds(
            list[first_holding(list, needle)],
            needle,
        ),
        forall|i: int| 0 <= i < first_holding(list, needle) ==> !holds(#[trigger] list[i], needle),
    decreases list.len(),
{
    if list.len() > 0 && !holds(list[0], needle) {
        let rest = list.drop_first();
        lemma_first_holding(rest, needle);
        assert forall|i: int| 0 <= i < first_holding(list, needle) implies !holds(
            #[trigger] list[i],
            needle,
        ) by {
            if i > 0 {
                assert(rest[i - 1] == list[i]);
            }
        }
    }
}

/// Where the app's own commit is listed, the notes of an update on the dev channel are exactly the
/// commit lines above it, and none of those names the app's commit.
pub proof fn law_dev_notes_stop_at_own_commit(
    platform: Platform,
    config: UpdaterConfig,
    release: ReleaseView,
)
    ensures
        ({
            let commits = commit_lines(release.notes);
            let short = short_commit(config.current_commit@);
            let position = first_holding(commits, short);
            dev_outcome(platform, config, Ok(release)) matches Ok(
                UpdateCheckView::UpdateAvailable(u),
            ) ==> (position < commits.len() ==> {
                &&& position > 0
                &&& holds(commits[position], short)
                &&& u.release_notes == joined(commits.take(position), "\n"@)
                &&& forall|i: int| 0 <= i < position ==> !holds(#[trigger] commits[i], short)
            })
        }),
{
    lemma_first_holding(
        commit_lines(release.notes),
        short_commit(config.current_commit@),
    );
}

/// Where the app's own commit is not listed, an update on the dev channel comes with all the notes.
pub proof fn law_unlisted_commit_gets_all_notes(
    platform: Platform,
    config: UpdaterConfig,
    release: ReleaseView,
)
    ensures
        ({
            let commits = commit_lines(release.notes);
            let short = short_commit(config.current_commit@);
            dev_outcome(platform, config, Ok(release)) matches Ok(
                UpdateCheckView::UpdateAvailable(u),
            ) ==> ((forall|i: int| 0 <= i < commits.len() ==> !holds(#[trigger] commits[i], short))
                ==> u.release_notes == release.notes)
        }),
{
    lemma_first_holding(
        commit_lines(release.notes),
        short_commit(config.current_commit@),
    );
}

/// A full commit hash and the short one come to the same: cutting a hash that was cut already
/// changes nothing, and a check on the dev channel has the same outcome for both.
pub proof fn law_full_and_short_hashes_agree(
    platform: Platform,
    full: UpdaterConfig,
    short: UpdaterConfig,
    reply: Result<ReleaseView, ReleaseFailureView>,
)
    requires
        cuts_cleanly(full.current_commit@),
        short.current_commit@ == short_commit(full.current_commit@),
        short == (UpdaterConfig { current_commit: short.current_commit, ..full }),
    ensures
        cuts_cleanly(short.current_commit@),
        short_commit(short.current_commit@) == short.current_commit@,
        dev_outcome(platform, short, reply) == dev_outcome(platform, full, reply),
{
    let bytes = encode_utf8(full.current_commit@);
    if bytes.len() > 7 {
        encode_utf8_valid_utf8(full.current_commit@);
        valid_utf8_split(bytes, 7);
        decode_utf8_encode_utf8(bytes.subrange(0, 7));
    }
}

/// A commit hash in ASCII can always be cut, and its first seven characters are what is left of a
/// longer one.
pub proof fn law_ascii_hashes_are_cut_to_seven(commit: Seq<char>)
    requires
        is_ascii_chars(commit),
    ensures
        cuts_cleanly(commit),
        short_commit(commit) == (if commit.len() > 7 {
            commit.take(7)
        } else {
            commit
        }),
{
    is_ascii_chars_encode_utf8(commit);
    if commit.len() > 7 {
        let head = commit.take(7);
        is_ascii_chars_encode_utf8(head);
        let bytes = encode_utf8(commit);
        assert(bytes.subrange(0, 7) =~= encode_utf8(head)) by {
            assert forall|i: int| 0 <= i < 7 implies bytes[i] == encode_utf8(head)[i] by {
                assert(head[i] == commit[i]);
            }
        }
        encode_utf8_decode_utf8(head);
        encode_utf8_valid_utf8(commit);
        assert(bytes[7] == commit[7] as u8);
        is_char_boundary_iff_not_is_continuation_byte(bytes, 7);
    }
}

/// Whether version `a` is earlier than `b`: smaller in the first of its major, minor and patch number
/// that differs.
pub open spec fn is_earlier(a: (u64, u64, u64), b: (u64, u64, u64)) -> bool {
    a.0 < b.0 || (a.0 == b.0 && (a.1 < b.1 || (a.1 == b.1 && a.2 < b.2)))
}

/// Every later version is offered on the stable channel, under the release's tag and with its notes,
/// where the release lists the app's asset and its signature. Every version that is not later leaves
/// the app up to date, whatever the release lists.
pub proof fn law_later_versions_are_offered(
    platform: Platform,
    config: UpdaterConfig,
    release: ReleaseView,
    current: (u64, u64, u64),
    latest: (u64, u64, u64),
    download_url: Seq<char>,
    signature_url: Seq<char>,
)
    requires
        version(config.current_version@) == Some(current),
        version(release.tag_name) == Some(latest),
    ensures
        is_earlier(current, latest) && url_of(release.assets, asset_name(platform, config)) == Some(
            download_url,
        ) && url_of(release.assets, asset_name(platform, config) + ".minisig"@) == Some(
            signature_url,
        ) ==> stable_outcome(platform, config, Ok(release)) == Ok::<_, UpdateErrorView>(
            UpdateCheckView::UpdateAvailable(
                UpdateAvailableView {
                    latest_version: release.tag_name,
                    download_url,
                    signature_url,
                    release_notes: release.notes,
                },
            ),
        ),
        !is_earlier(current, latest) ==> stable_outcome(platform, config, Ok(release)) == Ok::<
            _,
            UpdateErrorView,
        >(UpdateCheckView::UpToDate(release.tag_name)),
{
    law_found_when_listed(release.assets, asset_name(platform, config));
}

/// What stands in the way of an offer on the stable channel is reported: a request that failed, a
/// tag that is no version, a release without files, and one without the app's file or signature.
pub proof fn law_stable_errors_are_told_apart(
    platform: Platform,
    config: UpdaterConfig,
    failure: ReleaseFailureView,
    release: ReleaseView,
    current: (u64, u64, u64),
    latest: (u64, u64, u64),
)
    requires
        version(config.current_version@) == Some(current),
    ensures
        stable_outcome(platform, config, Err(failure)) == Err::<UpdateCheckView, _>(
            failure.error(),
        ),
        version(release.tag_name) is None ==> stable_outcome(platform, config, Ok(release)) == Err::<
            UpdateCheckView,
            _,
        >(UpdateErrorView::InvalidResponse("Latest release tag is not a valid semver."@)),
        version(release.tag_name) == Some(latest) && is_earlier(current, latest) ==> {
            &&& release.assets.len() == 0 ==> stable_outcome(platform, config, Ok(release)) == Err::<
                UpdateCheckView,
                _,
            >(
                UpdateErrorView::NoDownload(
                    "Latest release does not include downloadable assets."@,
                ),
            )
            &&& release.assets.len() > 0 && (url_of(release.assets, asset_name(platform, config))
                is None || url_of(release.assets, asset_name(platform, config) + ".minisig"@)
                is None) ==> stable_outcome(platform, config, Ok(release)) == Err::<
                UpdateCheckView,
                _,
            >(
                UpdateErrorView::NoDownload(
                    "Update is available but no matching download asset or signature was found."@,
                ),
            )
        },
{
}

/// A request that failed is reported with its status, or in its words as a failure of the network,
/// and an answer that is no release with what the reader said of it.
pub proof fn law_failed_lookups_are_told_apart(code: u16, words: Seq<char>)
    ensures
        ReleaseFailureView::Http(HttpFailureView::Status(code)).error() == UpdateErrorView::Http(
            code,
        ),
        ReleaseFailureView::Http(HttpFailureView::Other(words)).error()
            == UpdateErrorView::Network(words),
        ReleaseFailureView::Json(words).error() == UpdateErrorView::InvalidResponse(
            "Failed to parse release JSON: "@ + words,
        ),
{
}

/// The requests of the two channels: both go to the app's repository and carry its user agent, the
/// stable one for the latest release, the dev one for the release that is tagged `latest`.
pub proof fn law_requests_name_the_release(config: UpdaterConfig, tag: Seq<char>)
    ensures
        begins(latest_url(config.github_repo@), "https://api.github.com/repos/"@ + config.github_repo@),
        ends(latest_url(config.github_repo@), config.github_repo@ + "/releases/latest"@),
        latest_url(config.github_repo@).len() == "https://api.github.com/repos/"@.len()
            + config.github_repo@.len() + "/releases/latest"@.len(),
        begins(
            tag_url(config.github_repo@, tag),
            "https://api.github.com/repos/"@ + config.github_repo@,
        ),
        ends(
            tag_url(config.github_repo@, tag),
            config.github_repo@ + "/releases/tags/"@ + tag,
        ),
        tag_url(config.github_repo@, tag).len() == "https://api.github.com/repos/"@.len()
            + config.github_repo@.len() + "/releases/tags/"@.len() + tag.len(),
        release_request(config, tag).url == tag,
        release_request(config, tag).user_agent == config.user_agent@,
        release_request(config, tag).accept == Some("application/vnd.github+json"@),
        release_request(config, tag).timeout_secs == 15,
{
    let base = "https://api.github.com/repos/"@;
    let repo = config.github_repo@;
    let stable = latest_url(repo);
    let dev = tag_url(repo, tag);
    let stable_end = repo + "/releases/latest"@;
    let dev_end = repo + "/releases/tags/"@ + tag;
    assert(stable.subrange(0, (base + repo).len() as int) =~= base + repo);
    assert(stable.subrange(stable.len() - stable_end.len(), stable.len() as int) =~= stable_end);
    assert(dev.subrange(0, (base + repo).len() as int) =~= base + repo);
    assert(dev.subrange(dev.len() - dev_end.len(), dev.len() as int) =~= dev_end);
}

/// A line stands for a commit exactly when its visible text begins with a dash and a space.
pub proof fn law_commit_lines_begin_with_a_dash(a: Seq<char>, text: Seq<char>, b: Seq<char>)
    requires
        all_white(a),
        all_white(b),
        text.len() > 0 ==> !is_white(text[0]) && !is_white(text.last()),
    ensures
        is_commit_line()(a + text + b) <==> text.len() >= 2 && text[0] == '-' && text[1] == ' ',
{
    reveal_strlit("- ");
    law_trimming_takes_only_white_space(a, text, b);
    if text.len() >= 2 {
        assert(text.subrange(0, 2)[0] == text[0]);
        assert(text.subrange(0, 2)[1] == text[1]);
        if text[0] == '-' && text[1] == ' ' {
            assert(text.subrange(0, 2) =~= "- "@);
        }
    }
}

/// The commits of release notes are found line by line: a line that stands for a commit is kept as
/// it is, in its place, and any other is passed over.
pub proof fn law_commits_are_found_line_by_line(line: Seq<char>, rest: Seq<char>)
    requires
        free_of(line, '\n'),
        line.len() == 0 || line.last() != '\r',
    ensures
        commit_lines(Seq::empty()) == Seq::<Seq<char>>::empty(),
        commit_lines(line + seq!['\n'] + rest) == (if is_commit_line()(line) {
            seq![line] + commit_lines(rest)
        } else {
            commit_lines(rest)
        }),
        commit_lines(line + seq!['\r', '\n'] + rest) == commit_lines(line + seq!['\n'] + rest),
        commit_lines(line) == (if line.len() > 0 && is_commit_line()(line) {
            seq![line]
        } else {
            Seq::empty()
        }),
{
    reveal(Seq::filter);
    law_lines_end_at_line_feeds(line, rest);
    Seq::filter_distributes_over_add(seq![line], lines(rest), is_commit_line());
    let one = seq![line];
    assert(one.drop_last() =~= Seq::empty());
    assert(Seq::<Seq<char>>::empty().filter(is_commit_line()) =~= Seq::empty());
    assert(one.filter(is_commit_line()) =~= (if is_commit_line()(line) {
        one
    } else {
        Seq::empty()
    }));
    assert(Seq::<Seq<char>>::empty() + commit_lines(rest) =~= commit_lines(rest));
    if line.len() == 0 {
        assert(line =~= Seq::empty());
    }
}

proof fn lemma_filter_keeps_free(list: Seq<Seq<char>>, f: spec_fn(Seq<char>) -> bool, c: char)
    requires
        forall|i: int| 0 <= i < list.len() ==> free_of(#[trigger] list[i], c),
    ensures
        forall|i: int| 0 <= i < list.filter(f).len() ==> free_of(#[trigger] list.filter(f)[i], c),
    decreases list.len(),
{
    reveal(Seq::filter);
    if list.len() > 0 {
        let init = list.drop_last();
        assert forall|i: int| 0 <= i < init.len() implies free_of(#[trigger] init[i], c) by {
            assert(init[i] == list[i]);
        }
        lemma_filter_keeps_free(init, f, c);
        assert(free_of(list[list.len() - 1], c));
        assert forall|i: int| 0 <= i < list.filter(f).len() implies free_of(
            #[trigger] list.filter(f)[i],
            c,
        ) by {
            if i < init.filter(f).len() {
                assert(list.filter(f)[i] == init.filter(f)[i]);
            }
        }
    }
}

/// The hash of the newest commit is the word behind the dash of the first line.
pub proof fn law_newest_hash_follows_the_dash(
    margin: Seq<char>,
    gap: Seq<char>,
    hash: Seq<char>,
    rest: Seq<char>,
    older: Seq<Seq<char>>,
)
    requires
        all_white(margin),
        all_white(gap),
        gap.len() > 0,
        hash.len() > 0,
        forall|i: int| 0 <= i < hash.len() ==> !is_white(#[trigger] hash[i]),
        rest.len() == 0 || is_white(rest[0]),
    ensures
        latest_hash(seq![margin + seq!['-'] + gap + hash + rest] + older) == hash,
{
    let tail = gap + hash + rest;
    let line = margin + seq!['-'] + gap + hash + rest;
    assert(line =~= margin + seq!['-'] + tail);
    assert(tail[0] == gap[0]);
    law_words_are_set_apart(margin, seq!['-'], tail);
    law_words_are_set_apart(gap, hash, rest);
    assert(words(line) == seq![seq!['-']] + (seq![hash] + words(rest)));
    assert(words(line)[1] == hash);
    assert((seq![line] + older)[0] == line);
}

/// An update on the dev channel is offered whenever the notes list commits and the app's own is not
/// the newest, provided that the release lists the app's asset and its signature. It goes under the
/// newest commit. Its notes, cut at their line feeds, are the commit lines above the first that names
/// the app's commit, all of them and in their order; where none does, they are the release's own.
pub proof fn law_new_commits_are_offered(
    platform: Platform,
    config: UpdaterConfig,
    release: ReleaseView,
    position: int,
    download_url: Seq<char>,
    signature_url: Seq<char>,
)
    requires
        commit_lines(release.notes).len() > 0,
        short_commit(config.current_commit@) != latest_hash(commit_lines(release.notes)),
        0 < position <= commit_lines(release.notes).len(),
        forall|i: int|
            0 <= i < position ==> !holds(
                #[trigger] commit_lines(release.notes)[i],
                short_commit(config.current_commit@),
            ),
        position < commit_lines(release.notes).len() ==> holds(
            commit_lines(release.notes)[position],
            short_commit(config.current_commit@),
        ),
        url_of(release.assets, asset_name(platform, config)) == Some(download_url),
        url_of(release.assets, asset_name(platform, config) + ".minisig"@) == Some(signature_url),
    ensures
        ({
            let commits = commit_lines(release.notes);
            &&& dev_outcome(platform, config, Ok(release)) matches Ok(
                UpdateCheckView::UpdateAvailable(u),
            )
            &&& u.latest_version == "dev-"@ + latest_hash(commits)
            &&& u.download_url == download_url
            &&& u.signature_url == signature_url
            &&& position < commits.len() ==> split(u.release_notes, '\n') == commits.take(position)
            &&& position == commits.len() ==> u.release_notes == release.notes
        }),
{
    reveal_strlit("\n");
    let commits = commit_lines(release.notes);
    let short = short_commit(config.current_commit@);
    law_found_when_listed(release.assets, asset_name(platform, config));
    lemma_first_holding(commits, short);
    let found = first_holding(commits, short);
    assert(found == position) by {
        if found < position {
            assert(!holds(commits[found], short));
        }
        if found > position {
            assert(!holds(commits[position], short));
        }
    }
    law_lines_hold_no_line_feeds(release.notes);
    lemma_filter_keeps_free(lines(release.notes), is_commit_line(), '\n');
    let above = commits.take(position);
    assert forall|i: int| 0 <= i < above.len() implies free_of(#[trigger] above[i], '\n') by {
        assert(above[i] == commits[i]);
    }
    law_joined_texts_come_apart(above, '\n');
    assert("\n"@ =~= seq!['\n']);
}

/// An app whose commit is named by the first commit line is up to date on the dev channel, under the
/// newest commit.
pub proof fn law_commit_of_the_first_line_is_up_to_date(
    platform: Platform,
    config: UpdaterConfig,
    release: ReleaseView,
)
    requires
        commit_lines(release.notes).len() > 0,
        holds(commit_lines(release.notes)[0], short_commit(config.current_commit@)),
    ensures
        dev_outcome(platform, config, Ok(release)) == Ok::<_, UpdateErrorView>(
            UpdateCheckView::UpToDate("dev-"@ + latest_hash(commit_lines(release.notes))),
        ),
{
}

/// What stands in the way of an offer on the dev channel is reported: a request that failed, a
/// release without files, and one without the app's file or signature.
pub proof fn law_dev_errors_are_told_apart(
    platform: Platform,
    config: UpdaterConfig,
    failure: ReleaseFailureView,
    release: ReleaseView,
)
    ensures
        dev_outcome(platform, config, Err(failure)) == Err::<UpdateCheckView, _>(failure.error()),
        commit_lines(release.notes).len() > 0 && short_commit(config.current_commit@)
            != latest_hash(commit_lines(release.notes)) && !holds(
            commit_lines(release.notes)[0],
            short_commit(config.current_commit@),
        ) ==> {
            &&& release.assets.len() == 0 ==> dev_outcome(platform, config, Ok(release)) == Err::<
                UpdateCheckView,
                _,
            >(
                UpdateErrorView::NoDownload(
                    "Latest release does not include downloadable assets."@,
                ),
            )
            &&& release.assets.len() > 0 && (url_of(release.assets, asset_name(platform, config))
                is None || url_of(release.assets, asset_name(platform, config) + ".minisig"@)
                is None) ==> dev_outcome(platform, config, Ok(release)) == Err::<
                UpdateCheckView,
                _,
            >(
                UpdateErrorView::NoDownload(
                    "Update is available but no matching download asset or signature was found."@,
                ),
            )
        },
{
    lemma_first_holding(
        commit_lines(release.notes),
        short_commit(config.current_commit@),
    );
}

/// What a check hands out is what its outcome was stated to be, text by text.
pub proof fn law_outcomes_are_seen_as_they_are(update: UpdateAvailableResult, latest: String)
    ensures
        ({
            &&& UpdateCheckOutcome::UpdateAvailable(update)@ matches UpdateCheckView::UpdateAvailable(
                u,
            )
            &&& u.latest_version == update.latest_version@
            &&& u.download_url == update.download_url@
            &&& u.signature_url == update.signature_url@
            &&& u.release_notes == update.release_notes@
        }),
        UpdateCheckOutcome::UpToDate(latest)@ == UpdateCheckView::UpToDate(latest@),
{
}

/// A commit hash of seven bytes or fewer stays as it is, and of a longer one the first seven bytes
/// are left.
pub proof fn law_hashes_are_cut_to_seven_bytes(commit: Seq<char>)
    requires
        cuts_cleanly(commit),
    ensures
        encode_utf8(commit).len() <= 7 ==> short_commit(commit) == commit,
        encode_utf8(commit).len() > 7 ==> encode_utf8(short_commit(commit)) == encode_utf8(
            commit,
        ).take(7),
{
    let bytes = encode_utf8(commit);
    if bytes.len() > 7 {
        encode_utf8_valid_utf8(commit);
        valid_utf8_split(bytes, 7);
        decode_utf8_encode_utf8(bytes.subrange(0, 7));
        assert(bytes.take(7) =~= bytes.subrange(0, 7));
    }
}

/// Results, replies and failures are seen as they are.
pub proof fn law_replies_are_seen_as_they_are(
    outcome: UpdateCheckOutcome,
    error: UpdateError,
    release: GithubRelease,
    failure: ReleaseFailure,
    http: HttpFailure,
    m: String,
)
    ensures
        check_view(Ok(outcome)) == Ok::<_, UpdateErrorView>(outcome@),
        check_view(Err(error)) == Err::<UpdateCheckView, _>(error@),
        reply_view(Ok(release)) == Ok::<_, ReleaseFailureView>(release@),
        reply_view(Err(failure)) == Err::<ReleaseView, _>(failure@),
        ReleaseFailure::Http(http)@ == ReleaseFailureView::Http(http@),
        ReleaseFailure::Json(m)@ == ReleaseFailureView::Json(m@),
{
}

} // verus!
