use ship_shape::install::{
    conclude, download_ended, download_ended_in, download_failed_in, plan_install, plan_install_in, report_install, report_install_in,
    update_format, AfterDownload, AfterInstall, ExeLocation, InstallFacts, InstallPlan, Launcher, UpdateFormat,
};
use ship_shape::ui::{
    present_in, present_update_result, progress_percent, update_dialog, update_dialog_in, CheckTrigger, Flow,
    Presentation, UpdateOffer,
};
use ship_shape::words::Words;
use ship_shape::{
    InstallKind, InstallOutcome, Platform, UpdateAvailableResult, UpdateCheckOutcome, UpdateError, UpdaterConfig,
};

fn config() -> UpdaterConfig {
    UpdaterConfig::new("o/r", "myapp", "My App", "key", "1.0.0")
}

fn marked() -> Words {
    Words::with(|text: &str| format!("<{text}>"))
}

fn available(version: &str, notes: &str) -> Result<UpdateCheckOutcome, UpdateError> {
    Ok(UpdateCheckOutcome::UpdateAvailable(UpdateAvailableResult {
        latest_version: version.to_string(),
        download_url: "u".to_string(),
        signature_url: "s".to_string(),
        release_notes: notes.to_string(),
    }))
}

fn offer(presentation: Presentation) -> UpdateOffer {
    match presentation {
        Presentation::Offer(o) => o,
        other => panic!("{other:?}"),
    }
}

fn facts(extension: &str) -> InstallFacts {
    InstallFacts {
        pid: 7,
        update: "/d/u".to_string(),
        extension: Some(extension.to_string()),
        exe: Ok(ExeLocation { exe: "/a/e".to_string(), dir: "/a".to_string() }),
        appimage: Some("/i".to_string()),
    }
}

fn launch(plan: InstallPlan) -> (Launcher, String, String) {
    match plan {
        InstallPlan::Launch { launcher, command, failure, .. } => (launcher, command, failure),
        other => panic!("{other:?}"),
    }
}

fn refusal(plan: InstallPlan) -> String {
    match plan {
        InstallPlan::Refuse(reason) => reason,
        other => panic!("{other:?}"),
    }
}

#[test]
fn an_update_is_offered_whoever_asked() {
    for trigger in [CheckTrigger::Automatic, CheckTrigger::Manual] {
        let o = offer(present_in(&marked(), &config(), available("v2", "- new **things**"), trigger));
        assert_eq!(o.version, "v2");
        assert_eq!(o.notes, "- new things");
        assert_eq!(o.download_url, "u");
        assert_eq!(o.signature_url, "s");
        assert_eq!(o.progress_title, "<My App Update>");
        assert_eq!(o.progress_message, "<Downloading update...>");
    }
}

#[test]
fn gaps_in_an_update_are_filled() {
    let o = offer(present_in(&marked(), &config(), available("", " \n"), CheckTrigger::Manual));
    assert_eq!(o.version, "1.0.0");
    assert_eq!(o.notes, "<No release notes provided.>");
}

#[test]
fn automatic_checks_are_quiet() {
    let quiet = |outcome: Result<UpdateCheckOutcome, UpdateError>| {
        matches!(present_in(&marked(), &config(), outcome, CheckTrigger::Automatic), Presentation::Nothing)
    };
    assert!(quiet(Ok(UpdateCheckOutcome::UpToDate("v1".to_string()))));
    assert!(quiet(Err(UpdateError::Http(500))));
}

#[test]
fn manual_checks_are_answered() {
    let info = |version: &str| {
        let outcome = Ok(UpdateCheckOutcome::UpToDate(version.to_string()));
        match present_in(&marked(), &config(), outcome, CheckTrigger::Manual) {
            Presentation::Info(n) => (n.title, n.message),
            other => panic!("{other:?}"),
        }
    };
    assert_eq!(info("v1"), ("<Info>".to_string(), "<No updates available. Latest version: v1>".to_string()));
    assert_eq!(info(" "), ("<Info>".to_string(), "<No updates available.>".to_string()));
    let error = |e: UpdateError| match present_in(&marked(), &config(), Err(e), CheckTrigger::Manual) {
        Presentation::Error(n) => (n.title, n.message),
        other => panic!("{other:?}"),
    };
    assert_eq!(error(UpdateError::Http(404)), ("<Error>".to_string(), "HTTP error: 404".to_string()));
    assert_eq!(
        error(UpdateError::Verification("bad".to_string())),
        (
            "<Security Error>".to_string(),
            "<Security verification failed. The update might have been tampered with: bad>".to_string()
        )
    );
}

#[test]
fn texts_are_english_where_no_translation_is_registered() {
    let texts = update_dialog("2.0", "My App");
    assert_eq!(texts.title, "Update to 2.0");
    assert_eq!(texts.label, "A new version of My App is available. Here's what's new:");
    assert_eq!(texts.yes, "&Yes");
    assert_eq!(texts.no, "&No");
    let o = offer(present_update_result(&config(), available("v2", ""), CheckTrigger::Automatic));
    assert_eq!(o.notes, "No release notes provided.");
    assert_eq!(o.progress_title, "My App Update");
    match download_ended::<&str>(false, Err(UpdateError::Cancelled)) {
        AfterDownload::Error(n) => assert_eq!(n.message, "Update failed: Download cancelled"),
        other => panic!("{other:?}"),
    }
    match report_install(Ok(InstallOutcome::ManualStep("do it".to_string()))) {
        AfterInstall::Info(n) => assert_eq!((n.title.as_str(), n.message.as_str()), ("Update Ready", "do it")),
        other => panic!("{other:?}"),
    }
    assert_eq!(refusal(plan_install(Platform::MacOs, &config(), &facts("zip"))), "Unknown update file format.");
}

#[test]
fn dialog_texts_name_the_version_and_the_app() {
    let texts = update_dialog_in(&marked(), "2.0", "My App");
    assert_eq!(texts.title, "<Update to 2.0>");
    assert_eq!(texts.label, "<A new version of My App is available. Here's what's new:>");
    assert_eq!(texts.yes, "<&Yes>");
    assert_eq!(texts.no, "<&No>");
}

#[test]
fn only_one_flow_runs_at_a_time() {
    let o = offer(present_in(&marked(), &config(), available("v2", ""), CheckTrigger::Manual));
    let mut flow = Flow::Idle;
    assert!(flow.try_start());
    assert!(!flow.try_start());
    assert!(flow.answer(true, &o));
    assert_eq!(flow, Flow::Downloading);
    assert!(!flow.try_start());
    flow.end();
    assert_eq!(flow, Flow::Idle);
    assert!(flow.try_start());
    assert!(!flow.answer(false, &o));
    assert_eq!(flow, Flow::Idle);
    assert!(flow.try_start());
    let nowhere = UpdateOffer { download_url: String::new(), ..o };
    assert!(!flow.answer(true, &nowhere));
    assert_eq!(flow, Flow::Idle);
}

#[test]
fn of_many_attempts_one_starts_a_flow() {
    let mut flow = Flow::Idle;
    let started = (0..5).filter(|_| flow.try_start()).count();
    assert_eq!(started, 1);
    assert_eq!(flow, Flow::Checking);
}

#[test]
fn a_check_without_an_update_ends_its_flow() {
    let up_to_date = || Ok(UpdateCheckOutcome::UpToDate("v1.0.0".to_string()));
    let failed = || Err(UpdateError::Http(404));
    let mut flow = Flow::Idle;
    for trigger in [CheckTrigger::Automatic, CheckTrigger::Manual] {
        for outcome in [up_to_date(), failed()] {
            assert!(flow.try_start());
            flow.shown(&present_in(&marked(), &config(), outcome, trigger));
            assert_eq!(flow, Flow::Idle);
        }
        assert!(flow.try_start());
        flow.shown(&present_in(&marked(), &config(), available("v2", ""), trigger));
        assert_eq!(flow, Flow::Checking);
        let o = offer(present_in(&marked(), &config(), available("v2", ""), trigger));
        assert!(flow.answer(true, &o));
        assert!(!flow.try_start());
        flow.end();
    }
}

#[test]
fn progress_is_a_percentage_of_a_known_size() {
    assert_eq!(progress_percent(0, 0), None);
    assert_eq!(progress_percent(5, 0), None);
    assert_eq!(progress_percent(0, 3), Some(0));
    assert_eq!(progress_percent(1, 3), Some(33));
    assert_eq!(progress_percent(3, 3), Some(100));
    assert_eq!(progress_percent(6, 3), Some(200));
    assert_eq!(progress_percent(u64::MAX, u64::MAX), Some(1));
    assert_eq!(progress_percent(u64::MAX, 1), None);
    assert_eq!(progress_percent(2_147_483_647, 100), Some(i32::MAX));
    assert_eq!(progress_percent(2_147_483_648, 100), None);
}

#[test]
fn formats_are_told_by_their_extension() {
    let format = |e: &str| update_format(&Some(e.to_string()));
    assert_eq!(format("EXE"), UpdateFormat::Exe);
    assert_eq!(format("Zip"), UpdateFormat::Zip);
    assert_eq!(format("dmg"), UpdateFormat::Dmg);
    assert_eq!(format("gz"), UpdateFormat::Unknown);
    assert_eq!(update_format(&None), UpdateFormat::Unknown);
}

#[test]
fn what_is_downloaded_can_be_installed() {
    let portable = config().with_install_kind(InstallKind::Portable);
    for (platform, config, extension) in [
        (Platform::Windows, config(), "exe"),
        (Platform::Windows, portable.clone(), "zip"),
        (Platform::MacOs, config(), "dmg"),
        (Platform::Linux, config(), "AppImage"),
        (Platform::Linux, portable, "gz"),
        (Platform::Other, config(), "exe"),
    ] {
        let plan = plan_install_in(&marked(), platform, &config, &facts(extension));
        assert!(!matches!(plan, InstallPlan::Refuse(_)));
    }
}

#[test]
fn windows_runs_an_installer_or_unpacks_an_archive() {
    let plan = |extension: &str| plan_install_in(&marked(), Platform::Windows, &config(), &facts(extension));
    let (launcher, command, failure) = launch(plan("exe"));
    assert_eq!(launcher, Launcher::PowerShell);
    assert!(command.ends_with(
        "Start-Process -FilePath '/d/u' -ArgumentList '/silent' -Wait; Start-Process -FilePath '/a/e'"
    ));
    assert_eq!(failure, "<Failed to launch installer script>");
    let (launcher, command, failure) = launch(plan("zip"));
    assert_eq!(launcher, Launcher::PowerShell);
    assert!(command.contains("Expand-Archive -Path '/d/u' -DestinationPath '/a' -Force"));
    assert_eq!(failure, "<Failed to launch update script>");
    assert_eq!(refusal(plan("dmg")), "<Unknown update file format.>");
    let lost = InstallFacts { exe: Err("gone".to_string()), ..facts("dmg") };
    let plan = plan_install_in(&marked(), Platform::Windows, &config(), &lost);
    assert_eq!(refusal(plan), "<Failed to get current exe path>: gone");
}

#[test]
fn macos_opens_a_disk_image() {
    let plan = plan_install_in(&marked(), Platform::MacOs, &config(), &facts("dmg"));
    let outcome = match conclude(plan, Ok(())) {
        Ok(InstallOutcome::ManualStep(m)) => m,
        other => panic!("{other:?}"),
    };
    assert_eq!(
        outcome,
        "<The update has been downloaded and its disk image opened. Quit My App and drag the new version into Applications to finish installing.>"
    );
    let plan = plan_install_in(&marked(), Platform::MacOs, &config(), &facts("dmg"));
    assert_eq!(launch(plan), (Launcher::Open, "/d/u".to_string(), "<Failed to open disk image>".to_string()));
}

#[test]
fn linux_goes_by_the_kind_of_install() {
    let plan = plan_install_in(&marked(), Platform::Linux, &config(), &facts("AppImage"));
    let (launcher, command, failure) = launch(plan);
    assert_eq!(launcher, Launcher::Shell);
    assert!(command.contains("mv -f '/d/u' '/i'; nohup '/i'"));
    assert_eq!(failure, "<Failed to launch update script>");
    let bare = InstallFacts { appimage: None, ..facts("AppImage") };
    let plan = plan_install_in(&marked(), Platform::Linux, &config(), &bare);
    assert_eq!(refusal(plan), "<Not running from an AppImage; cannot self-update.>");
    let portable = config().with_install_kind(InstallKind::Portable);
    let (launcher, command, _) = launch(plan_install_in(&marked(), Platform::Linux, &portable, &bare));
    assert_eq!(launcher, Launcher::Shell);
    assert!(command.contains("tar -xzf '/d/u' -C '/a'; rm -f '/d/u'; nohup '/a/e'"));
    let lost = InstallFacts { exe: Err("gone".to_string()), ..facts("gz") };
    let plan = plan_install_in(&marked(), Platform::Linux, &portable, &lost);
    assert_eq!(refusal(plan), "<Failed to get current exe path>: gone");
}

#[test]
fn other_platforms_leave_it_to_the_user() {
    let plan = plan_install_in(&marked(), Platform::Other, &config(), &facts("zip"));
    match conclude(plan, Ok(())) {
        Ok(InstallOutcome::ManualStep(m)) => {
            assert_eq!(m, "<Update downloaded to: /d/u\nPlease install it manually.>");
        }
        other => panic!("{other:?}"),
    }
}

#[test]
fn installs_end_with_an_exit_or_a_message() {
    let plan = |extension: &str| plan_install_in(&marked(), Platform::Windows, &config(), &facts(extension));
    let done = conclude(plan("exe"), Ok(()));
    assert!(matches!(report_install_in(&marked(), done), AfterInstall::ExitProcess));
    let error = |r: Result<InstallOutcome, String>| match report_install_in(&marked(), r) {
        AfterInstall::Error(n) => (n.title, n.message),
        other => panic!("{other:?}"),
    };
    let failed = conclude(plan("zip"), Err("denied".to_string()));
    assert_eq!(error(failed), ("<Error>".to_string(), "<Failed to launch update script>: denied".to_string()));
    let refused = conclude(plan("txt"), Ok(()));
    assert_eq!(error(refused), ("<Error>".to_string(), "<Unknown update file format.>".to_string()));
    let notice = download_failed_in(&marked(), &UpdateError::Network("x".to_string()));
    assert_eq!((notice.title.as_str(), notice.message.as_str()), ("<Error>", "<Update failed>: Network error: x"));
}

#[test]
fn a_download_that_was_called_off_ends_in_silence() {
    let end = |cancelled: bool, result: Result<&'static str, UpdateError>| download_ended_in(&marked(), cancelled, result);
    assert!(matches!(end(true, Ok("/f")), AfterDownload::Nothing));
    assert!(matches!(end(true, Err(UpdateError::Cancelled)), AfterDownload::Nothing));
    assert!(matches!(end(false, Ok("/f")), AfterDownload::Install("/f")));
    match end(false, Err(UpdateError::Http(500))) {
        AfterDownload::Error(n) => {
            assert_eq!((n.title.as_str(), n.message.as_str()), ("<Error>", "<Update failed>: HTTP error: 500"));
        }
        other => panic!("{other:?}"),
    }
}
