use ship_shape::check::{
    check_dev, check_request, check_stable, fetch_release_by_tag, release_error, shorten, ReleaseFailure,
};
use ship_shape::http::{map_http_err, HttpFailure};
use ship_shape::release::{GithubRelease, ReleaseAsset};
use ship_shape::{
    check_for_updates, InstallKind, Platform, UpdateChannel, UpdateCheckOutcome, UpdateError, UpdaterConfig,
};

fn config(version: &str, commit: &str) -> UpdaterConfig {
    UpdaterConfig::new("owner/repo", "myapp", "My App", "key", version)
        .with_commit(commit)
        .with_install_kind(InstallKind::Portable)
}

fn release(tag: &str, body: Option<&str>) -> GithubRelease {
    let asset = |name: &str| ReleaseAsset { name: name.to_string(), browser_download_url: format!("https://x/{name}") };
    GithubRelease {
        tag_name: tag.to_string(),
        body: body.map(|b| b.to_string()),
        assets: Some(vec![asset("myapp.zip"), asset("myapp.zip.minisig")]),
    }
}

fn stable(version: &str, release: GithubRelease) -> Result<UpdateCheckOutcome, UpdateError> {
    check_for_updates(Platform::Windows, &config(version, ""), UpdateChannel::Stable, Ok(release))
}

fn dev(commit: &str, body: Option<&str>) -> UpdateCheckOutcome {
    check_for_updates(Platform::Windows, &config("", commit), UpdateChannel::Dev, Ok(release("latest", body))).unwrap()
}

fn up_to_date(outcome: UpdateCheckOutcome) -> String {
    match outcome {
        UpdateCheckOutcome::UpToDate(v) => v,
        other => panic!("{other:?}"),
    }
}

fn notes_and_version(outcome: UpdateCheckOutcome) -> (String, String) {
    match outcome {
        UpdateCheckOutcome::UpdateAvailable(r) => {
            assert_eq!(r.download_url, "https://x/myapp.zip");
            assert_eq!(r.signature_url, "https://x/myapp.zip.minisig");
            (r.release_notes, r.latest_version)
        }
        other => panic!("{other:?}"),
    }
}

const NOTES: &str = "# Changes\r\n- ccccccc third\r\n\n  - bbbbbbb second\n* not a commit\n- aaaaaaa first\n";

#[test]
fn stable_offers_only_later_versions() {
    assert_eq!(up_to_date(stable("1.2.3", release("v1.2.3", None)).unwrap()), "v1.2.3");
    assert_eq!(up_to_date(stable("1.2.4", release("v1.2.3", None)).unwrap()), "v1.2.3");
    let found = stable("1.2.3", release("v1.3.0-rc", Some("news"))).unwrap();
    assert_eq!(notes_and_version(found), ("news".to_string(), "v1.3.0-rc".to_string()));
    let silent = stable("1.2.3", release("v2", None)).unwrap();
    assert_eq!(notes_and_version(silent), (String::new(), "v2".to_string()));
}

#[test]
fn stable_reports_versions_that_cannot_be_read() {
    assert_eq!(
        stable("x", release("v1", None)).unwrap_err().message(),
        "Invalid version: Current version is not a valid semver."
    );
    assert_eq!(
        stable("1", release("latest", None)).unwrap_err().message(),
        "Invalid response: Latest release tag is not a valid semver."
    );
}

#[test]
fn the_apps_own_version_is_read_before_the_reply() {
    let reply = || Err(ReleaseFailure::Http(HttpFailure::Status(404)));
    assert_eq!(check_stable(Platform::Linux, &config("1", ""), reply()).unwrap_err().message(), "HTTP error: 404");
    assert_eq!(
        check_stable(Platform::Linux, &config("", ""), reply()).unwrap_err().message(),
        "Invalid version: Current version is not a valid semver."
    );
    assert_eq!(check_dev(Platform::Linux, &config("", ""), reply()).unwrap_err().message(), "HTTP error: 404");
}

#[test]
fn missing_assets_are_an_error_only_when_there_is_an_update() {
    let bare = |tag: &str| GithubRelease { tag_name: tag.to_string(), body: None, assets: None };
    assert_eq!(up_to_date(stable("1", bare("1")).unwrap()), "1");
    assert_eq!(
        stable("1", bare("2")).unwrap_err().message(),
        "No download: Latest release does not include downloadable assets."
    );
}

#[test]
fn an_updated_app_is_up_to_date() {
    let (_, version) = notes_and_version(stable("1.0.0", release("v1.1.0", None)).unwrap());
    assert_eq!(up_to_date(stable(&version, release("v1.1.0", None)).unwrap()), "v1.1.0");
}

#[test]
fn dev_without_commit_lines_is_up_to_date() {
    assert_eq!(up_to_date(dev("abcdefghij", None)), "dev-abcdefg");
    assert_eq!(up_to_date(dev("abc", Some("nothing\n-\n- \n"))), "dev-abc");
}

#[test]
fn dev_knows_the_newest_commit_by_its_short_or_full_hash() {
    assert_eq!(up_to_date(dev("ccccccc", Some(NOTES))), "dev-ccccccc");
    assert_eq!(up_to_date(dev("ccccccc0123456789", Some(NOTES))), "dev-ccccccc");
    assert_eq!(up_to_date(dev("ccc", Some(NOTES))), "dev-ccccccc");
}

#[test]
fn dev_without_a_commit_is_up_to_date() {
    assert_eq!(up_to_date(dev("", Some(NOTES))), "dev-ccccccc");
}

#[test]
fn dev_notes_stop_at_the_own_commit() {
    let found = dev("aaaaaaa", Some(NOTES));
    assert_eq!(
        notes_and_version(found),
        ("- ccccccc third\n  - bbbbbbb second".to_string(), "dev-ccccccc".to_string())
    );
    let found = dev("bbbbbbbffff", Some(NOTES));
    assert_eq!(notes_and_version(found), ("- ccccccc third".to_string(), "dev-ccccccc".to_string()));
}

#[test]
fn dev_offers_all_notes_for_an_unlisted_commit() {
    let found = dev("0000000", Some(NOTES));
    assert_eq!(notes_and_version(found), (NOTES.to_string(), "dev-ccccccc".to_string()));
}

#[test]
fn commits_are_cut_after_seven_bytes() {
    assert_eq!(shorten("1234567"), "1234567");
    assert_eq!(shorten("12345678"), "1234567");
    assert_eq!(shorten("12345\u{e9}89"), "12345\u{e9}");
    assert_eq!(shorten(""), "");
}

#[test]
fn requests_name_the_release_to_look_at() {
    let request = check_request(&config("1.0", ""), UpdateChannel::Stable).unwrap();
    assert_eq!(request.url, "https://api.github.com/repos/owner/repo/releases/latest");
    assert_eq!(request.user_agent, "myapp/1.0");
    assert_eq!(request.accept, Some("application/vnd.github+json".to_string()));
    assert_eq!(request.timeout_secs, 15);
    let request = check_request(&config("x", ""), UpdateChannel::Dev).unwrap();
    assert_eq!(request.url, "https://api.github.com/repos/owner/repo/releases/tags/latest");
    assert_eq!(
        check_request(&config("x", ""), UpdateChannel::Stable).unwrap_err().message(),
        "Invalid version: Current version is not a valid semver."
    );
    assert_eq!(
        fetch_release_by_tag(&config("1", ""), "v9").url,
        "https://api.github.com/repos/owner/repo/releases/tags/v9"
    );
}

#[test]
fn failures_become_errors() {
    assert_eq!(map_http_err(HttpFailure::Status(503)).message(), "HTTP error: 503");
    assert_eq!(map_http_err(HttpFailure::Other("dns".to_string())).message(), "Network error: dns");
    assert_eq!(
        release_error(ReleaseFailure::Json("eof".to_string())).message(),
        "Invalid response: Failed to parse release JSON: eof"
    );
}

#[test]
fn errors_say_what_they_are() {
    assert_eq!(UpdateError::InvalidVersion("a".to_string()).message(), "Invalid version: a");
    assert_eq!(UpdateError::Http(404).message(), "HTTP error: 404");
    assert_eq!(UpdateError::Network("a".to_string()).message(), "Network error: a");
    assert_eq!(UpdateError::InvalidResponse("a".to_string()).message(), "Invalid response: a");
    assert_eq!(UpdateError::NoDownload("a".to_string()).message(), "No download: a");
    assert_eq!(UpdateError::Verification("a".to_string()).message(), "Verification error: a");
    assert_eq!(UpdateError::Io("a".to_string()).message(), "I/O error: a");
    assert_eq!(UpdateError::Cancelled.message(), "Download cancelled");
}

#[test]
fn full_and_short_hashes_come_to_the_same() {
    for commit in ["aaaaaaa0123456789", "bbbbbbb\u{e9}", "00000\u{e9}rest", "ccccccc", "abc"] {
        let short = shorten(commit);
        assert_eq!(shorten(short), short);
        assert_eq!(format!("{:?}", dev(commit, Some(NOTES))), format!("{:?}", dev(short, Some(NOTES))));
    }
}
