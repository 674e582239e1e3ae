//! Applying an update that was downloaded and verified.

use vstd::prelude::*;

use crate::config::{texts, InstallKind, UpdaterConfig};
use crate::error::{UpdateError, UpdateErrorView};
use crate::platform::{chosen_dir, linux, name_parts, windows, InstallOutcome, Platform};
use crate::text::{
    ascii_lower, begins, ends, eq_ignore_ascii_case, fill, filled, holds, optional,
    same_ignoring_case, to_chars,
};
use crate::words::Words;

verus! {

/// What an update file is, by the extension of its name.
#[derive(Debug, Clone, Copy, PartialEq, Eq, Structural)]
pub enum UpdateFormat {
    /// An installer.
    Exe,
    /// An archive.
    Zip,
    /// A disk image.
    Dmg,
    /// Anything else.
    Unknown,
}

/// Whether an extension is the given one, whatever its case.
pub open spec fn has_extension(extension: Option<Seq<char>>, wanted: Seq<char>) -> bool {
    match extension {
        Some(e) => same_ignoring_case(e, wanted),
        None => false,
    }
}

/// What a file with the given extension is.
pub open spec fn format_of(extension: Option<Seq<char>>) -> UpdateFormat {
    if has_extension(extension, "exe"@) {
        UpdateFormat::Exe
    } else if has_extension(extension, "zip"@) {
        UpdateFormat::Zip
    } else if has_extension(extension, "dmg"@) {
        UpdateFormat::Dmg
    } else {
        UpdateFormat::Unknown
    }
}

/// Tests for an extension.
fn is_extension(extension: &Option<String>, wanted: &str) -> (found: bool)
    ensures
        found == has_extension(optional(*extension), wanted@),
{
    match extension {
        Some(e) => {
            let e = to_chars(e.as_str());
            let wanted = to_chars(wanted);
            eq_ignore_ascii_case(e.as_slice(), wanted.as_slice())
        },
        None => false,
    }
}

/// Tells what a file is by its extension.
pub fn update_format(extension: &Option<String>) -> (format: UpdateFormat)
    ensures
        format == format_of(optional(*extension)),
{
    if is_extension(extension, "exe") {
        UpdateFormat::Exe
    } else if is_extension(extension, "zip") {
        UpdateFormat::Zip
    } else if is_extension(extension, "dmg") {
        UpdateFormat::Dmg
    } else {
        UpdateFormat::Unknown
    }
}

/// Where the running executable is.
#[derive(Debug)]
pub struct ExeLocation {
    /// Its path.
    pub exe: String,
    /// The directory it is in.
    pub dir: String,
}

/// What is known about the update file and the running app.
#[derive(Debug)]
pub struct InstallFacts {
    /// The id of this process.
    pub pid: u32,
    /// The path of the update file.
    pub update: String,
    /// The extension of its name.
    pub extension: Option<String>,
    /// Where the running executable is, or why that is not known.
    pub exe: Result<ExeLocation, String>,
    /// The `AppImage` that this process was started from, if any.
    pub appimage: Option<String>,
}

/// What runs a command.
#[derive(Debug, Clone, Copy, PartialEq, Eq, Structural)]
pub enum Launcher {
    /// `PowerShell`, which gets a script.
    PowerShell,
    /// A shell, which gets a script.
    Shell,
    /// `open`, which gets the path of a disk image.
    Open,
}

/// How an update is to be applied.
#[derive(Debug)]
pub enum InstallPlan {
    /// Launch a command. If that fails, say so after `failure`; otherwise go on with `outcome`.
    Launch { launcher: Launcher, command: String, failure: String, outcome: InstallOutcome },
    /// There is nothing to launch.
    Finish(InstallOutcome),
    /// It cannot be applied, for this reason.
    Refuse(String),
}

/// [`InstallOutcome`] with its text as a sequence of characters.
pub enum InstallOutcomeView {
    Exit,
    ManualStep(Seq<char>),
}

/// [`InstallPlan`] with its texts as sequences of characters.
pub enum InstallPlanView {
    Launch {
        launcher: Launcher,
        command: Seq<char>,
        failure: Seq<char>,
        outcome: InstallOutcomeView,
    },
    Finish(InstallOutcomeView),
    Refuse(Seq<char>),
}

impl View for InstallOutcome {
    type V = InstallOutcomeView;

    open spec fn view(&self) -> InstallOutcomeView {
        match self {
            InstallOutcome::Exit => InstallOutcomeView::Exit,
            InstallOutcome::ManualStep(m) => InstallOutcomeView::ManualStep(m@),
        }
    }
}

impl View for InstallPlan {
    type V = InstallPlanView;

    open spec fn view(&self) -> InstallPlanView {
        match self {
            InstallPlan::Launch { launcher, command, failure, outcome } =>
                InstallPlanView::Launch {
                launcher: *launcher,
                command: command@,
                failure: failure@,
                outcome: outcome@,
            },
            InstallPlan::Finish(outcome) => InstallPlanView::Finish(outcome@),
            InstallPlan::Refuse(reason) => InstallPlanView::Refuse(reason@),
        }
    }
}

/// A text, and what it is about.
pub open spec fn about(label: Seq<char>, detail: Seq<char>) -> Seq<char> {
    label + ": "@ + detail
}

/// Puts a label and a colon before a text.
fn tell(label: &str, detail: &str) -> (out: String)
    ensures
        out@ == about(label@, detail@),
{
    String::from(label).concat(": ").concat(detail)
}

/// The script to launch, and what follows.
pub open spec fn launch_script(launcher: Launcher, script: Seq<char>, failure: Seq<char>) -> InstallPlanView {
    InstallPlanView::Launch {
        launcher,
        command: script,
        failure,
        outcome: InstallOutcomeView::Exit,
    }
}

/// How an update is applied on Windows: an installer is run, and an archive is unpacked over the
/// app folder.
pub open spec fn windows_plan(words: Words, config: UpdaterConfig, facts: InstallFacts) -> InstallPlanView {
    match (facts.exe, format_of(optional(facts.extension))) {
        (Err(e), _) => InstallPlanView::Refuse(about(words.no_exe_path@, e@)),
        (Ok(at), UpdateFormat::Exe) => launch_script(
            Launcher::PowerShell,
            windows::installing(
                facts.pid,
                texts(config.installer_args@),
                facts.update@,
                at.exe@,
            ),
            words.no_installer_script@,
        ),
        (Ok(at), UpdateFormat::Zip) => launch_script(
            Launcher::PowerShell,
            windows::unpacking(facts.pid, facts.update@, at.dir@, at.exe@),
            words.no_update_script@,
        ),
        (Ok(_), _) => InstallPlanView::Refuse(words.unknown_format@),
    }
}

/// How an update is applied on macOS: its disk image is opened, and the rest is left to the user.
pub open spec fn macos_plan(words: Words, config: UpdaterConfig, facts: InstallFacts) -> InstallPlanView {
    if format_of(optional(facts.extension)) == UpdateFormat::Dmg {
        InstallPlanView::Launch {
            launcher: Launcher::Open,
            command: facts.update@,
            failure: words.no_disk_image@,
            outcome: InstallOutcomeView::ManualStep(
                filled(words.drag_over@, config.app_display_name@),
            ),
        }
    } else {
        InstallPlanView::Refuse(words.unknown_format@)
    }
}

/// How an update is applied on Linux: the running `AppImage` is replaced, or a tarball is unpacked
/// over the app folder.
pub open spec fn linux_plan(words: Words, config: UpdaterConfig, facts: InstallFacts) -> InstallPlanView {
    match config.install_kind {
        InstallKind::Installer => match facts.appimage {
            None => InstallPlanView::Refuse(words.no_appimage@),
            Some(current) => launch_script(
                Launcher::Shell,
                linux::installing(facts.pid, facts.update@, current@),
                words.no_update_script@,
            ),
        },
        InstallKind::Portable => match facts.exe {
            Err(e) => InstallPlanView::Refuse(about(words.no_exe_path@, e@)),
            Ok(at) => launch_script(
                Launcher::Shell,
                linux::unpacking(facts.pid, facts.update@, at.dir@, at.exe@),
                words.no_update_script@,
            ),
        },
    }
}

/// How an update is applied. Where nothing better is known, the user is told where the file is.
pub open spec fn planned(
    words: Words,
    platform: Platform,
    config: UpdaterConfig,
    facts: InstallFacts,
) -> InstallPlanView {
    match platform {
        Platform::Windows => windows_plan(words, config, facts),
        Platform::MacOs => macos_plan(words, config, facts),
        Platform::Linux => linux_plan(words, config, facts),
        Platform::Other => InstallPlanView::Finish(
            InstallOutcomeView::ManualStep(filled(words.downloaded_to@, facts.update@)),
        ),
    }
}

/// Plans how an update is applied on Windows.
fn plan_windows(words: &Words, config: &UpdaterConfig, facts: &InstallFacts) -> (plan: InstallPlan)
    ensures
        plan@ == windows_plan(*words, *config, *facts),
{
    let at = match &facts.exe {
        Ok(at) => at,
        Err(e) => {
            return InstallPlan::Refuse(tell(words.no_exe_path.as_str(), e.as_str()));
        },
    };
    match update_format(&facts.extension) {
        UpdateFormat::Exe => InstallPlan::Launch {
            launcher: Launcher::PowerShell,
            command: windows::installer_script(
                facts.pid,
                config.installer_args.as_slice(),
                facts.update.as_str(),
                at.exe.as_str(),
            ),
            failure: words.no_installer_script.clone(),
            outcome: InstallOutcome::Exit,
        },
        UpdateFormat::Zip => InstallPlan::Launch {
            launcher: Launcher::PowerShell,
            command: windows::zip_update_script(
                facts.pid,
                facts.update.as_str(),
                at.dir.as_str(),
                at.exe.as_str(),
            ),
            failure: words.no_update_script.clone(),
            outcome: InstallOutcome::Exit,
        },
        _ => InstallPlan::Refuse(words.unknown_format.clone()),
    }
}

/// Plans how an update is applied on macOS.
///
/// There's no way to self-replace a running, Gatekeeper-checked `.app` bundle the way the Windows
/// install script does, so this stops at opening the mounted image; dragging the app into
/// Applications is left to the user.
fn plan_macos(words: &Words, config: &UpdaterConfig, facts: &InstallFacts) -> (plan: InstallPlan)
    ensures
        plan@ == macos_plan(*words, *config, *facts),
{
    if update_format(&facts.extension) == UpdateFormat::Dmg {
        InstallPlan::Launch {
            launcher: Launcher::Open,
            command: facts.update.clone(),
            failure: words.no_disk_image.clone(),
            outcome: InstallOutcome::ManualStep(
                fill(words.drag_over.as_str(), config.app_display_name.as_str()),
            ),
        }
    } else {
        InstallPlan::Refuse(words.unknown_format.clone())
    }
}

/// Plans how an update is applied on Linux.
///
/// The path of the `AppImage` is the one that its runtime announces. The path of the executable
/// would instead lead to the temporary mount that the runtime extracts itself to, which disappears
/// when the `AppImage` exits.
fn plan_linux(words: &Words, config: &UpdaterConfig, facts: &InstallFacts) -> (plan: InstallPlan)
    ensures
        plan@ == linux_plan(*words, *config, *facts),
{
    let script = match config.install_kind {
        InstallKind::Installer => match &facts.appimage {
            None => {
                return InstallPlan::Refuse(words.no_appimage.clone());
            },
            Some(current) => linux::installer_script(
                facts.pid,
                facts.update.as_str(),
                current.as_str(),
            ),
        },
        InstallKind::Portable => match &facts.exe {
            Err(e) => {
                return InstallPlan::Refuse(tell(words.no_exe_path.as_str(), e.as_str()));
            },
            Ok(at) => linux::targz_update_script(
                facts.pid,
                facts.update.as_str(),
                at.dir.as_str(),
                at.exe.as_str(),
            ),
        },
    };
    InstallPlan::Launch {
        launcher: Launcher::Shell,
        command: script,
        failure: words.no_update_script.clone(),
        outcome: InstallOutcome::Exit,
    }
}

/// Plans how an update is applied, in the given words.
pub fn plan_install_in(
    words: &Words,
    platform: Platform,
    config: &UpdaterConfig,
    facts: &InstallFacts,
) -> (plan: InstallPlan)
    ensures
        plan@ == planned(*words, platform, *config, *facts),
{
    match platform {
        Platform::Windows => plan_windows(words, config, facts),
        Platform::MacOs => plan_macos(words, config, facts),
        Platform::Linux => plan_linux(words, config, facts),
        Platform::Other => InstallPlan::Finish(
            InstallOutcome::ManualStep(fill(words.downloaded_to.as_str(), facts.update.as_str())),
        ),
    }
}

/// Plans how an update is applied, in the words of the user.
pub fn plan_install(platform: Platform, config: &UpdaterConfig, facts: &InstallFacts) -> (plan:
    InstallPlan)
    ensures
        exists|words: Words|
            words.translated() && plan@ == #[trigger] planned(words, platform, *config, *facts),
{
    let words = Words::load();
    plan_install_in(&words, platform, config, facts)
}

/// The result of an install with its texts as sequences of characters.
pub open spec fn install_view(r: Result<InstallOutcome, String>) -> Result<
    InstallOutcomeView,
    Seq<char>,
> {
    match r {
        Ok(outcome) => Ok(outcome@),
        Err(m) => Err(m@),
    }
}

/// What an install comes to once its command was launched, or could not be.
pub open spec fn installed(plan: InstallPlanView, launched: Result<(), Seq<char>>) -> Result<
    InstallOutcomeView,
    Seq<char>,
> {
    match plan {
        InstallPlanView::Launch { failure, outcome, .. } => match launched {
            Ok(()) => Ok(outcome),
            Err(e) => Err(about(failure, e)),
        },
        InstallPlanView::Finish(outcome) => Ok(outcome),
        InstallPlanView::Refuse(reason) => Err(reason),
    }
}

/// Concludes an install. `launched` says whether the command of the plan, if it has one, could be
/// launched.
pub fn conclude(plan: InstallPlan, launched: Result<(), String>) -> (result: Result<
    InstallOutcome,
    String,
>)
    ensures
        install_view(result) == installed(
            plan@,
            match launched {
                Ok(()) => Ok(()),
                Err(e) => Err(e@),
            },
        ),
{
    match plan {
        InstallPlan::Launch { failure, outcome, .. } => match launched {
            Ok(()) => Ok(outcome),
            Err(e) => Err(tell(failure.as_str(), e.as_str())),
        },
        InstallPlan::Finish(outcome) => Ok(outcome),
        InstallPlan::Refuse(reason) => Err(reason),
    }
}

/// A message to the user.
#[derive(Debug)]
pub struct Notice {
    /// Its title.
    pub title: String,
    /// What it says.
    pub message: String,
}

/// [`Notice`] with its texts as sequences of characters.
pub struct NoticeView {
    pub title: Seq<char>,
    pub message: Seq<char>,
}

impl View for Notice {
    type V = NoticeView;

    open spec fn view(&self) -> NoticeView {
        NoticeView { title: self.title@, message: self.message@ }
    }
}

/// What is left to do when an install is over.
#[derive(Debug)]
pub enum AfterInstall {
    /// Exit, so that the launched script can go on.
    ExitProcess,
    /// Tell the user how to go on.
    Info(Notice),
    /// Tell the user what went wrong.
    Error(Notice),
}

/// [`AfterInstall`] with its texts as sequences of characters.
pub enum AfterInstallView {
    ExitProcess,
    Info(NoticeView),
    Error(NoticeView),
}

impl View for AfterInstall {
    type V = AfterInstallView;

    open spec fn view(&self) -> AfterInstallView {
        match self {
            AfterInstall::ExitProcess => AfterInstallView::ExitProcess,
            AfterInstall::Info(n) => AfterInstallView::Info(n@),
            AfterInstall::Error(n) => AfterInstallView::Error(n@),
        }
    }
}

/// What is left to do when an install is over.
pub open spec fn after_install(words: Words, result: Result<InstallOutcomeView, Seq<char>>) -> AfterInstallView {
    match result {
        Ok(InstallOutcomeView::Exit) => AfterInstallView::ExitProcess,
        Ok(InstallOutcomeView::ManualStep(message)) => AfterInstallView::Info(
            NoticeView { title: words.update_ready@, message },
        ),
        Err(message) => AfterInstallView::Error(NoticeView { title: words.error@, message }),
    }
}

/// Says what is left to do when an install is over, in the given words.
pub fn report_install_in(words: &Words, result: Result<InstallOutcome, String>) -> (after:
    AfterInstall)
    ensures
        after@ == after_install(*words, install_view(result)),
{
    match result {
        Ok(InstallOutcome::Exit) => AfterInstall::ExitProcess,
        Ok(InstallOutcome::ManualStep(message)) => AfterInstall::Info(
            Notice { title: words.update_ready.clone(), message },
        ),
        Err(message) => AfterInstall::Error(Notice { title: words.error.clone(), message }),
    }
}

/// Says what is left to do when an install is over, in the words of the user.
pub fn report_install(result: Result<InstallOutcome, String>) -> (after: AfterInstall)
    ensures
        exists|words: Words|
            words.translated() && after@ == #[trigger] after_install(words, install_view(result)),
{
    let words = Words::load();
    report_install_in(&words, result)
}

/// The message for a download that did not succeed.
pub open spec fn failure_notice(words: Words, error: UpdateErrorView) -> NoticeView {
    NoticeView { title: words.error@, message: about(words.update_failed@, error.message()) }
}

/// Makes the message for a download that did not succeed, in the given words.
pub fn download_failed_in(words: &Words, error: &UpdateError) -> (notice: Notice)
    ensures
        notice@ == failure_notice(*words, error@),
{
    Notice {
        title: words.error.clone(),
        message: tell(words.update_failed.as_str(), error.message().as_str()),
    }
}

/// What is left to do when a download is over.
#[derive(Debug)]
pub enum AfterDownload<P> {
    /// Nothing: the user has called it off.
    Nothing,
    /// Install the file.
    Install(P),
    /// Tell the user what went wrong.
    Error(Notice),
}

/// Whether `after` is what is left to do when a download is over that came to `result`: nothing when
/// it was called off, whatever it came to, and otherwise to install the file or to show the error.
pub open spec fn ended_with<P>(
    words: Words,
    cancelled: bool,
    result: Result<P, UpdateError>,
    after: AfterDownload<P>,
) -> bool {
    match result {
        _ if cancelled => after is Nothing,
        Ok(file) => after == AfterDownload::Install(file),
        Err(e) => after matches AfterDownload::Error(n) && n@ == failure_notice(words, e@),
    }
}

/// Says what is left to do when a download is over, in the given words.
pub fn download_ended_in<P>(
    words: &Words,
    cancelled: bool,
    result: Result<P, UpdateError>,
) -> (after: AfterDownload<P>)
    ensures
        ended_with(*words, cancelled, result, after),
{
    if cancelled {
        return AfterDownload::Nothing;
    }
    match result {
        Ok(file) => AfterDownload::Install(file),
        Err(e) => AfterDownload::Error(download_failed_in(words, &e)),
    }
}

/// Says what is left to do when a download is over, in the words of the user.
pub fn download_ended<P>(cancelled: bool, result: Result<P, UpdateError>) -> (after:
    AfterDownload<P>)
    ensures
        exists|words: Words|
            words.translated() && #[trigger] ended_with(words, cancelled, result, after),
{
    let words = Words::load();
    download_ended_in(&words, cancelled, result)
}

/// What is downloaded can be installed: a file with the extension of the app's asset is refused
/// only where the running executable, or the `AppImage` to be replaced, is not known. On Linux not
/// even the extension counts.
pub proof fn law_downloads_can_be_installed(
    words: Words,
    platform: Platform,
    config: UpdaterConfig,
    facts: InstallFacts,
)
    requires
        facts.exe is Ok,
        facts.appimage is Some,
        platform != Platform::Linux ==> optional(facts.extension) == Some(
            name_parts(platform, config.install_kind).1,
        ),
    ensures
        !(planned(words, platform, config, facts) is Refuse),
{
    reveal_strlit("exe");
    reveal_strlit("zip");
    reveal_strlit("dmg");
    assert(ascii_lower("zip"@[0]) != ascii_lower("exe"@[0]));
    assert(ascii_lower("dmg"@[0]) != ascii_lower("exe"@[0]));
    assert(ascii_lower("dmg"@[0]) != ascii_lower("zip"@[0]));
}

/// An app that is set up as an `AppImage` but does not run from one gets no directory to download
/// to, exactly when it could not have installed the download.
pub proof fn law_no_download_without_an_appimage(
    words: Words,
    config: UpdaterConfig,
    facts: InstallFacts,
)
    requires
        config.install_kind == InstallKind::Installer,
    ensures
        chosen_dir(Platform::Linux, config.install_kind, facts.appimage is Some) is Err
            <==> planned(words, Platform::Linux, config, facts) is Refuse,
{
}

/// On Windows an archive is unpacked, whatever the app says of how it was installed: where the exe is
/// known and the extension is `zip` in any case, `PowerShell` gets a script that unpacks the update
/// into the exe's directory, removes it and starts the exe, and the app is to exit.
pub proof fn law_archives_are_unpacked_on_windows(
    words: Words,
    config: UpdaterConfig,
    facts: InstallFacts,
    at: ExeLocation,
    extension: Seq<char>,
)
    requires
        facts.exe == Ok::<_, String>(at),
        optional(facts.extension) == Some(extension),
        same_ignoring_case(extension, "zip"@),
    ensures
        ({
            &&& planned(words, Platform::Windows, config, facts) matches InstallPlanView::Launch {
                launcher,
                command,
                failure,
                outcome,
            }
            &&& launcher == Launcher::PowerShell
            &&& failure == words.no_update_script@
            &&& outcome is Exit
            &&& begins(command, windows::waiting(facts.pid))
            &&& holds(
                command,
                "Expand-Archive -Path "@ + windows::ps_quoted(facts.update@)
                    + " -DestinationPath "@ + windows::ps_quoted(at.dir@) + " -Force"@,
            )
            &&& holds(
                command,
                "Remove-Item -Path "@ + windows::ps_quoted(facts.update@) + " -Force"@,
            )
            &&& ends(command, "; Start-Process "@ + windows::ps_quoted(at.exe@))
            &&& command == windows::unpacking(facts.pid, facts.update@, at.dir@, at.exe@)
        }),
{
    reveal_strlit("exe");
    reveal_strlit("zip");
    assert(ascii_lower(extension[0]) == ascii_lower("zip"@[0]));
    assert(ascii_lower("zip"@[0]) != ascii_lower("exe"@[0]));
    assert(format_of(Some(extension)) == UpdateFormat::Zip);
    windows::law_archives_are_unpacked_and_removed(facts.pid, facts.update@, at.dir@, at.exe@);
    windows::law_scripts_relaunch_the_app(
        facts.pid,
        texts(config.installer_args@),
        facts.update@,
        at.dir@,
        at.exe@,
    );
}

/// On Windows the update file itself is started only when it is an installer, and then it is: with
/// all the arguments that the app gives, until it has ended, and before the exe is started.
pub proof fn law_only_installers_are_run_on_windows(
    words: Words,
    config: UpdaterConfig,
    facts: InstallFacts,
)
    ensures
        ({
            let plan = planned(words, Platform::Windows, config, facts);
            let runs = windows::waiting(facts.pid) + "Start-Process -FilePath "@
                + windows::ps_quoted(facts.update@);
            let is_exe = optional(facts.extension) matches Some(e) && same_ignoring_case(
                e,
                "exe"@,
            );
            &&& (plan matches InstallPlanView::Launch { command, .. } && begins(
                command,
                windows::waiting(facts.pid) + "Start-Process "@,
            )) ==> is_exe
            &&& is_exe ==> (facts.exe matches Ok(at) ==> {
                &&& plan matches InstallPlanView::Launch { launcher, command, failure, outcome }
                &&& launcher == Launcher::PowerShell
                &&& failure == words.no_installer_script@
                &&& outcome is Exit
                &&& command == runs + windows::argument_list(texts(config.installer_args@))
                    + " -Wait; Start-Process -FilePath "@ + windows::ps_quoted(at.exe@)
            })
        }),
{
    reveal_strlit("Start-Process ");
    reveal_strlit("Expand-Archive -Path ");
    let wait = windows::waiting(facts.pid);
    if let Ok(at) = facts.exe {
        let run = windows::installing(
            facts.pid,
            texts(config.installer_args@),
            facts.update@,
            at.exe@,
        );
        assert(run =~= wait + "Start-Process -FilePath "@ + windows::ps_quoted(facts.update@)
            + windows::argument_list(texts(config.installer_args@))
            + " -Wait; Start-Process -FilePath "@ + windows::ps_quoted(at.exe@));
        let unpack = windows::unpacking(facts.pid, facts.update@, at.dir@, at.exe@);
        let k = wait.len() as int;
        let needle = wait + "Start-Process "@;
        assert(unpack[k] == 'E');
        if begins(unpack, needle) {
            assert(unpack.subrange(0, needle.len() as int)[k] == needle[k]);
            assert(needle[k] == 'S');
        }
    }
}

/// On Windows any other file is refused, and so is every file where the exe is not known.
pub proof fn law_windows_refuses_other_files(
    words: Words,
    config: UpdaterConfig,
    facts: InstallFacts,
    reason: String,
)
    ensures
        facts.exe == Err::<ExeLocation, _>(reason) ==> planned(
            words,
            Platform::Windows,
            config,
            facts,
        ) == InstallPlanView::Refuse(words.no_exe_path@ + ": "@ + reason@),
        facts.exe is Ok && !(optional(facts.extension) matches Some(e) && (same_ignoring_case(
            e,
            "exe"@,
        ) || same_ignoring_case(e, "zip"@))) ==> planned(words, Platform::Windows, config, facts)
            == InstallPlanView::Refuse(words.unknown_format@),
{
}

/// On macOS a disk image is opened and the user is told to quit the app, by its display name, and
/// drag the new one over; any other file is refused. How the app was installed plays no part.
pub proof fn law_macos_opens_disk_images(
    words: Words,
    config: UpdaterConfig,
    facts: InstallFacts,
)
    ensures
        ({
            let plan = planned(words, Platform::MacOs, config, facts);
            let is_dmg = optional(facts.extension) matches Some(e) && same_ignoring_case(
                e,
                "dmg"@,
            );
            &&& is_dmg ==> plan == (InstallPlanView::Launch {
                launcher: Launcher::Open,
                command: facts.update@,
                failure: words.no_disk_image@,
                outcome: InstallOutcomeView::ManualStep(
                    filled(words.drag_over@, config.app_display_name@),
                ),
            })
            &&& !is_dmg ==> plan == InstallPlanView::Refuse(words.unknown_format@)
        }),
{
    reveal_strlit("exe");
    reveal_strlit("zip");
    reveal_strlit("dmg");
    assert(ascii_lower("dmg"@[0]) != ascii_lower("exe"@[0]));
    assert(ascii_lower("dmg"@[0]) != ascii_lower("zip"@[0]));
    if let Some(e) = optional(facts.extension) {
        if same_ignoring_case(e, "dmg"@) {
            assert(ascii_lower(e[0]) == ascii_lower("dmg"@[0]));
        }
    }
}

/// On Linux the running `AppImage` is replaced by the update and started again, or a tarball is
/// unpacked into the exe's directory and the exe started again; what is to be replaced or started
/// must be known.
pub proof fn law_linux_replaces_or_unpacks(
    words: Words,
    config: UpdaterConfig,
    facts: InstallFacts,
    reason: String,
)
    ensures
        ({
            let plan = planned(words, Platform::Linux, config, facts);
            let script = |command: Seq<char>|
                InstallPlanView::Launch {
                    launcher: Launcher::Shell,
                    command,
                    failure: words.no_update_script@,
                    outcome: InstallOutcomeView::Exit,
                };
            &&& config.install_kind == InstallKind::Installer ==> {
                &&& facts.appimage is None ==> plan == InstallPlanView::Refuse(words.no_appimage@)
                &&& facts.appimage matches Some(current) ==> plan == script(
                    linux::installing(facts.pid, facts.update@, current@),
                )
            }
            &&& config.install_kind == InstallKind::Portable ==> {
                &&& facts.exe == Err::<ExeLocation, _>(reason) ==> plan == InstallPlanView::Refuse(
                    words.no_exe_path@ + ": "@ + reason@,
                )
                &&& facts.exe matches Ok(at) ==> plan == script(
                    linux::unpacking(facts.pid, facts.update@, at.dir@, at.exe@),
                )
            }
        }),
{
}

/// Elsewhere nothing is launched, and the user is told where the file is.
pub proof fn law_elsewhere_the_user_is_told(
    words: Words,
    config: UpdaterConfig,
    facts: InstallFacts,
)
    ensures
        planned(words, Platform::Other, config, facts) == InstallPlanView::Finish(
            InstallOutcomeView::ManualStep(filled(words.downloaded_to@, facts.update@)),
        ),
{
}

/// What an install comes to: what was planned for after the launch, once the command was launched;
/// otherwise why it was not, behind what it was for. Without a command the launch plays no part.
pub proof fn law_installs_come_to_what_was_planned(
    launcher: Launcher,
    command: Seq<char>,
    failure: Seq<char>,
    outcome: InstallOutcomeView,
    launched: Result<(), Seq<char>>,
    reason: Seq<char>,
)
    ensures
        ({
            let plan = InstallPlanView::Launch { launcher, command, failure, outcome };
            &&& installed(plan, Ok(())) == Ok::<_, Seq<char>>(outcome)
            &&& installed(plan, Err(reason)) == Err::<InstallOutcomeView, _>(
                failure + ": "@ + reason,
            )
        }),
        installed(InstallPlanView::Finish(outcome), launched) == Ok::<_, Seq<char>>(outcome),
        installed(InstallPlanView::Refuse(reason), launched) == Err::<InstallOutcomeView, _>(
            reason,
        ),
{
}

/// The app exits for its update only when the script that goes on without it was launched.
pub proof fn law_the_app_exits_only_for_a_script(
    words: Words,
    platform: Platform,
    config: UpdaterConfig,
    facts: InstallFacts,
    launched: Result<(), Seq<char>>,
)
    ensures
        after_install(words, installed(planned(words, platform, config, facts), launched))
            is ExitProcess ==> launched is Ok && (platform == Platform::Windows || platform
            == Platform::Linux),
{
}

/// What is left to do when an install is over: exit, show the instructions as news, or show the
/// reason as an error.
pub proof fn law_installs_are_reported(words: Words, message: Seq<char>)
    ensures
        after_install(words, Ok(InstallOutcomeView::Exit)) is ExitProcess,
        after_install(words, Ok(InstallOutcomeView::ManualStep(message))) == AfterInstallView::Info(
            NoticeView { title: words.update_ready@, message },
        ),
        after_install(words, Err(message)) == AfterInstallView::Error(
            NoticeView { title: words.error@, message },
        ),
{
}

/// A download that was called off leads to nothing; any other is installed, or its error is shown
/// with what the error says.
pub proof fn law_downloads_lead_to_installs<P>(
    words: Words,
    file: P,
    error: UpdateError,
    result: Result<P, UpdateError>,
    after: AfterDownload<P>,
)
    ensures
        ended_with(words, true, result, after) <==> after is Nothing,
        ended_with(words, false, Ok(file), after) <==> after == AfterDownload::Install(file),
        ended_with(words, false, Err::<P, _>(error), after) ==> (after matches AfterDownload::Error(
            n,
        ) && n.title@ == words.error@ && n.message@ == words.update_failed@ + ": "@
            + error@.message()),
{
}

/// Plans, outcomes and notices are seen as they are.
pub proof fn law_plans_are_seen_as_they_are(
    launcher: Launcher,
    command: String,
    failure: String,
    m: String,
    notice: Notice,
)
    ensures
        InstallOutcome::Exit@ is Exit,
        InstallOutcome::ManualStep(m)@ == InstallOutcomeView::ManualStep(m@),
        (InstallPlan::Launch { launcher, command, failure, outcome: InstallOutcome::Exit })@ == (
        InstallPlanView::Launch {
            launcher,
            command: command@,
            failure: failure@,
            outcome: InstallOutcomeView::Exit,
        }),
        InstallPlan::Finish(InstallOutcome::ManualStep(m))@ == InstallPlanView::Finish(
            InstallOutcomeView::ManualStep(m@),
        ),
        InstallPlan::Refuse(m)@ == InstallPlanView::Refuse(m@),
        notice@.title == notice.title@,
        notice@.message == notice.message@,
        AfterInstall::ExitProcess@ is ExitProcess,
        AfterInstall::Info(notice)@ == AfterInstallView::Info(notice@),
        AfterInstall::Error(notice)@ == AfterInstallView::Error(notice@),
{
}

/// A file is what its extension says, in any case of its letters.
pub proof fn law_formats_are_told_by_extension(e: Seq<char>)
    ensures
        format_of(None) == UpdateFormat::Unknown,
        format_of(Some(e)) == UpdateFormat::Exe <==> same_ignoring_case(e, "exe"@),
        format_of(Some(e)) == UpdateFormat::Zip <==> same_ignoring_case(e, "zip"@),
        format_of(Some(e)) == UpdateFormat::Dmg <==> same_ignoring_case(e, "dmg"@),
{
    reveal_strlit("exe");
    reveal_strlit("zip");
    reveal_strlit("dmg");
    assert(ascii_lower("zip"@[0]) != ascii_lower("exe"@[0]));
    assert(ascii_lower("dmg"@[0]) != ascii_lower("exe"@[0]));
    assert(ascii_lower("dmg"@[0]) != ascii_lower("zip"@[0]));
    if same_ignoring_case(e, "zip"@) {
        assert(ascii_lower(e[0]) == ascii_lower("zip"@[0]));
    }
    if same_ignoring_case(e, "dmg"@) {
        assert(ascii_lower(e[0]) == ascii_lower("dmg"@[0]));
    }
}

/// The result of an install is seen as it is.
pub proof fn law_results_are_seen_as_they_are(outcome: InstallOutcome, m: String)
    ensures
        install_view(Ok(outcome)) == Ok::<_, Seq<char>>(outcome@),
        install_view(Err(m)) == Err::<InstallOutcomeView, _>(m@),
{
}

} // verus!
