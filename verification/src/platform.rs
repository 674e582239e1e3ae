//! Everything that differs between operating systems: how assets are named, where a download is
//! put, and how it is installed.

pub mod linux;
pub mod macos;
pub mod windows;

use vstd::prelude::*;

use crate::config::{InstallKind, UpdaterConfig};
use crate::error::{labelled, UpdateError, UpdateErrorView};

verus! {

/// The operating systems that are told apart.
#[derive(Debug, Clone, Copy, PartialEq, Eq, Structural)]
pub enum Platform {
    Windows,
    MacOs,
    Linux,
    /// Any other. Assets are named as on Windows.
    Other,
}

/// Where a download is put.
#[derive(Debug, Clone, Copy, PartialEq, Eq, Structural)]
pub enum DownloadDir {
    /// In the directory of the running executable.
    BesideExe,
    /// In the app's directory under the per-user cache directory.
    AppCache,
    /// In the system temp directory.
    Temp,
}

/// What the caller must do after a successful install.
#[derive(Debug)]
pub enum InstallOutcome {
    /// The installer is waiting for this process to exit.
    Exit,
    /// The user must finish the install by hand. Holds the instructions to show.
    ManualStep(String),
}

/// What stands in an asset's name between the app's name and the suffix, and its extension.
pub open spec fn name_parts(platform: Platform, install_kind: InstallKind) -> (
    Seq<char>,
    Seq<char>,
) {
    match platform {
        Platform::Linux => linux::name_parts(install_kind),
        Platform::MacOs => macos::name_parts(),
        Platform::Windows | Platform::Other => windows::name_parts(install_kind),
    }
}

/// The suffix that goes into an asset's name. On macOS there is only one kind of asset, and the
/// suffix for installers has no part in it.
pub open spec fn name_suffix(platform: Platform, config: UpdaterConfig) -> Seq<char> {
    match platform {
        Platform::MacOs => config.asset_suffix@,
        _ => config.suffix(),
    }
}

/// The name of the release asset that fits an app.
pub open spec fn asset_name(platform: Platform, config: UpdaterConfig) -> Seq<char> {
    let parts = name_parts(platform, config.install_kind);
    config.app_name@ + parts.0 + name_suffix(platform, config) + "."@ + parts.1
}

/// Names the release asset that fits the running app.
pub fn asset_file_name(platform: Platform, config: &UpdaterConfig) -> (name: String)
    ensures
        name@ == asset_name(platform, *config),
{
    let parts = match platform {
        Platform::Linux => linux::asset_name_parts(config.install_kind),
        Platform::MacOs => macos::asset_name_parts(),
        Platform::Windows => windows::asset_name_parts(config.install_kind),
        Platform::Other => windows::asset_name_parts(config.install_kind),
    };
    let suffix = match platform {
        Platform::MacOs => config.asset_suffix.as_str(),
        _ => config.effective_asset_suffix(),
    };
    config.app_name.clone().concat(parts.0).concat(suffix).concat(".").concat(parts.1)
}

/// The directory that a download goes to, or why there is none.
pub open spec fn chosen_dir(platform: Platform, install_kind: InstallKind, in_appimage: bool) -> Result<
    DownloadDir,
    UpdateErrorView,
> {
    match (platform, install_kind) {
        (Platform::Linux, InstallKind::Installer) => if in_appimage {
            Ok(DownloadDir::AppCache)
        } else {
            Err(UpdateErrorView::Io("Not running from an AppImage; cannot self-update."@))
        },
        (Platform::Linux, InstallKind::Portable) => Ok(DownloadDir::BesideExe),
        (Platform::Windows, InstallKind::Portable) => Ok(DownloadDir::BesideExe),
        _ => Ok(DownloadDir::Temp),
    }
}

/// Chooses the directory that a download goes to. A portable Windows zip or Linux tar.gz lands
/// next to the current executable so that the extraction script can overwrite in place. A Linux
/// `AppImage` lands in a per-user cache directory, provided that the app runs from one, as
/// `in_appimage` says. Everything else lands in the system temp directory.
pub fn download_dir(platform: Platform, install_kind: InstallKind, in_appimage: bool) -> (dir:
    Result<DownloadDir, UpdateError>)
    ensures
        dir matches Ok(d) ==> chosen_dir(platform, install_kind, in_appimage) == Ok::<
            _,
            UpdateErrorView,
        >(d),
        dir matches Err(e) ==> chosen_dir(platform, install_kind, in_appimage) == Err::<
            DownloadDir,
            _,
        >(e@),
{
    match platform {
        Platform::Linux => linux::download_dir(install_kind, in_appimage),
        Platform::Windows => Ok(windows::download_dir(install_kind)),
        Platform::MacOs => Ok(DownloadDir::Temp),
        Platform::Other => Ok(DownloadDir::Temp),
    }
}

/// Makes sense of a lookup of the directory that the running executable is in: `lookup` holds the
/// directory, if the path of the executable has one, or why that path is not known.
pub fn exe_dir<P>(lookup: Result<Option<P>, String>) -> (dir: Result<P, UpdateError>)
    ensures
        lookup matches Ok(Some(p)) ==> dir == Ok::<_, UpdateError>(p),
        lookup matches Ok(None) ==> (dir matches Err(e) && e@ == UpdateErrorView::Io(
            "Failed to get exe directory"@,
        )),
        lookup matches Err(m) ==> (dir matches Err(e) && e@ == UpdateErrorView::Io(
            "Failed to determine exe path: "@ + m@,
        )),
{
    match lookup {
        Ok(Some(p)) => Ok(p),
        Ok(None) => Err(UpdateError::Io(String::from("Failed to get exe directory"))),
        Err(m) => Err(UpdateError::Io(labelled("Failed to determine exe path: ", m.as_str()))),
    }
}

/// On macOS the name of the asset does not depend on how the app was installed, nor on the suffix
/// for installers.
pub proof fn law_macos_has_one_asset(a: UpdaterConfig, b: UpdaterConfig)
    requires
        a.app_name@ == b.app_name@,
        a.asset_suffix@ == b.asset_suffix@,
    ensures
        asset_name(Platform::MacOs, a) == asset_name(Platform::MacOs, b),
{
}

/// The suffix for installers makes no difference to a portable app.
pub proof fn law_installer_suffix_is_for_installers(
    platform: Platform,
    a: UpdaterConfig,
    b: UpdaterConfig,
)
    requires
        a.app_name@ == b.app_name@,
        a.asset_suffix@ == b.asset_suffix@,
        a.install_kind == InstallKind::Portable,
        b.install_kind == InstallKind::Portable,
    ensures
        asset_name(platform, a) == asset_name(platform, b),
{
}

/// An installer without a suffix of its own gets the shared one.
pub proof fn law_shared_suffix_is_the_default(config: UpdaterConfig)
    requires
        config.installer_asset_suffix is None,
    ensures
        config.suffix() == config.asset_suffix@,
{
}

/// The names of the assets: on Windows, and wherever nothing better is known, `{app_name}_setup.exe`
/// and `{app_name}.zip`; on Linux `{app_name}.AppImage` and `{app_name}.tar.gz`; on macOS
/// `{app_name}.dmg`; each with the suffix right before the extension.
pub proof fn law_assets_are_named_by_platform_and_kind(config: UpdaterConfig)
    ensures
        ({
            let app = config.app_name@;
            let suffix = config.suffix();
            let name = |platform: Platform| asset_name(platform, config);
            &&& config.install_kind == InstallKind::Installer ==> {
                &&& name(Platform::Windows) == app + "_setup"@ + suffix + ".exe"@
                &&& name(Platform::Other) == app + "_setup"@ + suffix + ".exe"@
                &&& name(Platform::Linux) == app + suffix + ".AppImage"@
            }
            &&& config.install_kind == InstallKind::Portable ==> {
                &&& name(Platform::Windows) == app + suffix + ".zip"@
                &&& name(Platform::Other) == app + suffix + ".zip"@
                &&& name(Platform::Linux) == app + suffix + ".tar.gz"@
            }
            &&& name(Platform::MacOs) == app + config.asset_suffix@ + ".dmg"@
        }),
{
    reveal_strlit("");
    reveal_strlit(".");
    reveal_strlit("exe");
    reveal_strlit("zip");
    reveal_strlit("dmg");
    reveal_strlit("AppImage");
    reveal_strlit("tar.gz");
    reveal_strlit(".exe");
    reveal_strlit(".zip");
    reveal_strlit(".dmg");
    reveal_strlit(".AppImage");
    reveal_strlit(".tar.gz");
    let app = config.app_name@;
    let suffix = config.suffix();
    assert(asset_name(Platform::MacOs, config) =~= app + config.asset_suffix@ + ".dmg"@);
    if config.install_kind == InstallKind::Installer {
        assert(asset_name(Platform::Windows, config) =~= app + "_setup"@ + suffix + ".exe"@);
        assert(asset_name(Platform::Linux, config) =~= app + suffix + ".AppImage"@);
    } else {
        assert(asset_name(Platform::Windows, config) =~= app + suffix + ".zip"@);
        assert(asset_name(Platform::Linux, config) =~= app + suffix + ".tar.gz"@);
    }
}

/// Where downloads go: an archive that is unpacked over the app folder lands there, an `AppImage`
/// in the cache, if the app runs from one at all, and everything else in the temp directory.
pub proof fn law_downloads_go_where_they_are_needed(kind: InstallKind, in_appimage: bool)
    ensures
        chosen_dir(Platform::Windows, InstallKind::Portable, in_appimage) == Ok::<
            _,
            UpdateErrorView,
        >(DownloadDir::BesideExe),
        chosen_dir(Platform::Linux, InstallKind::Portable, in_appimage) == Ok::<
            _,
            UpdateErrorView,
        >(DownloadDir::BesideExe),
        chosen_dir(Platform::Linux, InstallKind::Installer, true) == Ok::<_, UpdateErrorView>(
            DownloadDir::AppCache,
        ),
        chosen_dir(Platform::Linux, InstallKind::Installer, false) == Err::<DownloadDir, _>(
            UpdateErrorView::Io("Not running from an AppImage; cannot self-update."@),
        ),
        chosen_dir(Platform::Windows, InstallKind::Installer, in_appimage) == Ok::<
            _,
            UpdateErrorView,
        >(DownloadDir::Temp),
        chosen_dir(Platform::MacOs, kind, in_appimage) == Ok::<_, UpdateErrorView>(
            DownloadDir::Temp,
        ),
        chosen_dir(Platform::Other, kind, in_appimage) == Ok::<_, UpdateErrorView>(
            DownloadDir::Temp,
        ),
{
}

} // verus!
