use ship_shape::download::{
    check_cancelled, content_length, file_name_of, judge, Download, DownloadAction, SignatureFailure,
};
use ship_shape::http::HttpFailure;
use ship_shape::{UpdateError, UpdaterConfig};

const KEY: &str = "RWQf6LRCGA9i53mlYecO4IzT51TGPpvWucNSCh1CBM0QTaLn73Y7GFO3";
const URL: &str = "https://example.com/files/app.zip";
const SIGNATURE_URL: &str = "https://example.com/files/app.zip.minisig";

fn signature() -> String {
    [
        "untrusted comment: signature from minisign secret key",
        "RUQf6LRCGA9i559r3g7V1qNyJDApGip8MfqcadIgT9CuhV3EMhHoN1mGTkUidF/z7SrlQgXdy8ofjb7bNJJylDOocrCo8KLzZwo=",
        "trusted comment: timestamp:1633700835\tfile:test\tprehashed",
        "wLMDjy9FLAuxZ3q4NlEvkgtyhrr0gtTu6KC4KBJdITbbOeAi1zBIYo0v4iTgt8jJpIidRJnp94ABQkJAgAooBQ==",
    ]
    .join("\n")
}

fn config(key: &str) -> UpdaterConfig {
    UpdaterConfig::new("o/r", "app", "App", key, "1.0")
}

fn start() -> Download {
    match Download::start(&config(KEY), URL, SIGNATURE_URL) {
        Ok(d) => d,
        Err(e) => panic!("{e:?}"),
    }
}

fn at_create() -> Download {
    start()
        .on_signature(Ok(signature()))
        .on_polled(false)
        .on_update(Ok(Some("4".to_string())))
        .on_directory(Ok(()))
}

fn at_read() -> Download {
    at_create().on_created(Ok(())).on_polled(false)
}

fn at_read_back() -> Download {
    at_read().on_chunk(Ok(4)).on_written(Ok(())).on_reported().on_polled(false).on_chunk(Ok(0))
}

fn error_of(download: Download, removes: bool) -> String {
    match download.next_action() {
        DownloadAction::Finish { remove_temp } => assert_eq!(remove_temp, removes),
        other => panic!("{other:?}"),
    }
    match download.finish() {
        Some(Err(e)) => e.message(),
        other => panic!("{other:?}"),
    }
}

#[test]
fn a_download_asks_for_one_thing_after_the_other() {
    let d = start();
    match d.next_action() {
        DownloadAction::FetchSignature(r) => {
            assert_eq!(r.url, SIGNATURE_URL);
            assert_eq!(r.user_agent, "app/1.0");
            assert_eq!(r.accept, None);
            assert_eq!(r.timeout_secs, 600);
        }
        other => panic!("{other:?}"),
    }
    let d = d.on_signature(Ok(signature()));
    assert!(matches!(d.next_action(), DownloadAction::PollCancelled));
    let d = d.on_polled(false);
    match d.next_action() {
        DownloadAction::FetchUpdate(r) => assert_eq!(r.url, URL),
        other => panic!("{other:?}"),
    }
    let d = d.on_update(Ok(Some("4".to_string())));
    assert!(matches!(d.next_action(), DownloadAction::LocateDirectory));
    let d = d.on_directory(Ok(()));
    match d.next_action() {
        DownloadAction::CreateTemp { file_name, temp_name } => {
            assert_eq!(file_name, "app.zip");
            assert_eq!(temp_name, "app.zip.tmp");
        }
        other => panic!("{other:?}"),
    }
    let d = d.on_created(Ok(()));
    assert!(matches!(d.next_action(), DownloadAction::PollCancelled));
    let d = d.on_polled(false);
    assert!(matches!(d.next_action(), DownloadAction::ReadChunk));
    let d = d.on_chunk(Ok(3));
    assert!(matches!(d.next_action(), DownloadAction::WriteChunk));
    let d = d.on_written(Ok(()));
    assert!(matches!(d.next_action(), DownloadAction::ReportProgress { downloaded: 3, total: 4 }));
    let d = d.on_reported().on_polled(false).on_chunk(Ok(1)).on_written(Ok(()));
    assert!(matches!(d.next_action(), DownloadAction::ReportProgress { downloaded: 4, total: 4 }));
    let d = d.on_reported().on_polled(false).on_chunk(Ok(0));
    assert!(matches!(d.next_action(), DownloadAction::ReadBack));
    let d = d.on_contents(Ok(b"test".to_vec()));
    assert!(matches!(d.next_action(), DownloadAction::Rename));
    let d = d.on_renamed(Ok(()));
    assert!(matches!(d.next_action(), DownloadAction::Finish { remove_temp: true }));
    assert!(matches!(d.finish(), Some(Ok(()))));
}

#[test]
fn a_download_under_way_has_no_outcome() {
    assert!(start().finish().is_none());
    assert!(at_read_back().finish().is_none());
}

#[test]
fn a_public_key_that_cannot_be_read_ends_it_at_once() {
    let error = |key: &str| match Download::start(&config(key), URL, SIGNATURE_URL) {
        Err(e) => e.message(),
        Ok(_) => panic!("{key}"),
    };
    assert_eq!(error("key"), "Verification error: Invalid public key: Invalid encoding in minisign data");
    assert_eq!(
        error("AAQf6LRCGA9i53mlYecO4IzT51TGPpvWucNSCh1CBM0QTaLn73Y7GFO3"),
        "Verification error: Invalid public key: This signature algorithm is not supported by this implementation"
    );
}

#[test]
fn a_signature_that_cannot_be_had_or_read_is_reported() {
    assert_eq!(
        error_of(start().on_signature(Ok("nonsense".to_string())), false),
        "Verification error: Invalid signature: Invalid encoding in minisign data"
    );
    assert_eq!(
        error_of(start().on_signature(Err(SignatureFailure::Http(HttpFailure::Status(404)))), false),
        "HTTP error: 404"
    );
    assert_eq!(
        error_of(start().on_signature(Err(SignatureFailure::Body("reset".to_string()))), false),
        "Network error: Failed to read signature: reset"
    );
}

#[test]
fn cancellation_ends_a_download_and_removes_what_is_there() {
    assert_eq!(error_of(start().on_signature(Ok(signature())).on_polled(true), false), "Download cancelled");
    assert_eq!(error_of(at_create().on_created(Ok(())).on_polled(true), true), "Download cancelled");
    let d = at_read().on_chunk(Ok(2)).on_written(Ok(())).on_reported().on_polled(true);
    assert_eq!(error_of(d, true), "Download cancelled");
}

#[test]
fn contents_that_do_not_fit_the_signature_are_never_renamed() {
    assert_eq!(
        error_of(at_read_back().on_contents(Ok(b"Test".to_vec())), true),
        "Verification error: Signature verification failed: The signature verification failed"
    );
}

#[test]
fn every_step_that_fails_ends_the_download() {
    let update = start().on_signature(Ok(signature())).on_polled(false);
    assert_eq!(error_of(update.on_update(Err(HttpFailure::Other("dns".to_string()))), false), "Network error: dns");
    let directory = start().on_signature(Ok(signature())).on_polled(false).on_update(Ok(None));
    assert_eq!(error_of(directory.on_directory(Err(UpdateError::Io("x".to_string()))), false), "I/O error: x");
    assert_eq!(error_of(at_create().on_created(Err("ro".to_string())), true), "I/O error: Failed to create file: ro");
    assert_eq!(error_of(at_read().on_chunk(Err("eof".to_string())), true), "Network error: eof");
    assert_eq!(
        error_of(at_read().on_chunk(Ok(1)).on_written(Err("full".to_string())), true),
        "I/O error: Failed to write file: full"
    );
    assert_eq!(
        error_of(at_read_back().on_contents(Err("gone".to_string())), true),
        "I/O error: Failed to read file for verification: gone"
    );
    assert_eq!(
        error_of(at_read_back().on_contents(Ok(b"test".to_vec())).on_renamed(Err("busy".to_string())), true),
        "I/O error: Failed to rename verified file: busy"
    );
}

#[test]
fn content_length_is_zero_when_it_makes_no_sense() {
    assert_eq!(content_length(None), 0);
    assert_eq!(content_length(Some("12")), 12);
    assert_eq!(content_length(Some("12 ")), 0);
    assert_eq!(content_length(Some("-1")), 0);
    assert_eq!(content_length(Some("18446744073709551616")), 0);
}

#[test]
fn file_names_are_what_follows_the_last_slash() {
    assert_eq!(file_name_of(URL), "app.zip");
    assert_eq!(file_name_of("app.zip"), "app.zip");
    assert_eq!(file_name_of("https://example.com/"), "");
    assert_eq!(file_name_of(""), "");
}

#[test]
fn findings_become_verification_errors() {
    assert!(judge("x: ", None).is_ok());
    assert_eq!(judge("x: ", Some("y".to_string())).unwrap_err().message(), "Verification error: x: y");
    assert!(check_cancelled(false).is_ok());
    assert_eq!(check_cancelled(true).unwrap_err().message(), "Download cancelled");
}

fn renames(key: &str, signature: String, data: &[u8]) -> Result<(), String> {
    let d = match Download::start(&config(key), URL, SIGNATURE_URL) {
        Ok(d) => d,
        Err(e) => panic!("{e:?}"),
    };
    let d = d.on_signature(Ok(signature)).on_polled(false).on_update(Ok(None)).on_directory(Ok(()));
    let d = d.on_created(Ok(())).on_polled(false).on_chunk(Ok(0)).on_contents(Ok(data.to_vec()));
    match d.next_action() {
        DownloadAction::Rename => Ok(()),
        DownloadAction::Finish { .. } => Err(error_of(d, true)),
        other => panic!("{other:?}"),
    }
}

#[test]
fn signatures_of_older_tools_count_too() {
    let legacy = [
        "untrusted comment: signature from minisign secret key",
        "RWQf6LRCGA9i59SLOFxz6NxvASXDJeRtuZykwQepbDEGt87ig1BNpWaVWuNrm73YiIiJbq71Wi+dP9eKL8OC351vwIasSSbXxwA=",
        "trusted comment: timestamp:1555779966\tfile:test",
        "QtKMXWyYcwdpZAlPF7tE2ENJkRd1ujvKjlj1m9RtHTBnZPa5WKU5uWRs5GoP5M/VqE81QFuMKI5k/SfNQUaOAA==",
    ]
    .join("\n");
    assert!(renames(KEY, legacy.clone(), b"test").is_ok());
    assert!(renames(KEY, legacy, b"Test").is_err());
    assert!(renames(KEY, signature(), b"test").is_ok());
}

#[test]
fn a_signature_by_another_key_does_not_count() {
    let other_key = KEY.replace("RWQf", "RWQg");
    let error = renames(&other_key, signature(), b"test").unwrap_err();
    assert!(error.starts_with("Verification error: Signature verification failed: "));
}
