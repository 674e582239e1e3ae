use ship_shape::platform::linux::{
    asset_name_parts, cache_base, cache_created, installer_script, sh_quote, targz_update_script, wait_clause,
    CacheBase,
};
use ship_shape::platform::{asset_file_name, download_dir, exe_dir, DownloadDir};
use ship_shape::{InstallKind, Platform, UpdaterConfig};

#[test]
fn asset_name_depends_on_install_kind() {
    assert_eq!(asset_name_parts(InstallKind::Installer), ("", "AppImage"));
    assert_eq!(asset_name_parts(InstallKind::Portable), ("", "tar.gz"));
}

#[test]
fn sh_quote_wraps_in_single_quotes() {
    assert_eq!(sh_quote("/tmp/app.tar.gz"), "'/tmp/app.tar.gz'");
}

#[test]
fn sh_quote_escapes_embedded_single_quotes() {
    assert_eq!(sh_quote("/home/o'brien/app.AppImage"), r"'/home/o'\''brien/app.AppImage'");
}

#[test]
fn installer_script_waits_replaces_and_relaunches() {
    let script = installer_script(42, "/tmp/app.AppImage", "/home/user/App.AppImage");
    assert_eq!(
        script,
        "sleep 1; while kill -0 42 2>/dev/null; do sleep 0.2; done; chmod +x '/tmp/app.AppImage'; mv -f '/tmp/app.AppImage' '/home/user/App.AppImage'; nohup '/home/user/App.AppImage' >/dev/null 2>&1 &"
    );
}

#[test]
fn installer_script_uses_semicolons_so_a_failed_step_still_relaunches() {
    let script = installer_script(1, "/tmp/app.AppImage", "/opt/App.AppImage");
    assert!(!script.contains("&&"));
}

#[test]
fn targz_script_extracts_cleans_up_and_relaunches() {
    let script = targz_update_script(7, "/tmp/app.tar.gz", "/opt/app", "/opt/app/app");
    assert_eq!(
        script,
        "sleep 1; while kill -0 7 2>/dev/null; do sleep 0.2; done; tar -xzf '/tmp/app.tar.gz' -C '/opt/app'; rm -f '/tmp/app.tar.gz'; nohup '/opt/app/app' >/dev/null 2>&1 &"
    );
}

#[test]
fn targz_script_uses_semicolons_so_a_failed_step_still_relaunches() {
    let script = targz_update_script(1, "/tmp/app.tar.gz", "/opt/app", "/opt/app/app");
    assert!(!script.contains("&&"));
}

#[test]
fn scripts_escape_quotes_in_paths() {
    let script = installer_script(7, "/tmp/o'brien.AppImage", "/home/o'brien/App.AppImage");
    assert!(script.contains(r"'/tmp/o'\''brien.AppImage'"));
    assert!(script.contains(r"'/home/o'\''brien/App.AppImage'"));
}

#[test]
fn wait_clause_names_the_process() {
    assert_eq!(wait_clause(0), "sleep 1; while kill -0 0 2>/dev/null; do sleep 0.2; done");
    assert!(wait_clause(u32::MAX).contains("kill -0 4294967295 "));
}

#[test]
fn a_shell_word_of_quotes_alone_is_escaped_throughout() {
    assert_eq!(sh_quote(""), "''");
    assert_eq!(sh_quote("'"), r"''\'''");
    assert_eq!(sh_quote("a b;c&&d"), "'a b;c&&d'");
}

#[test]
fn asset_names_put_the_suffix_before_the_extension() {
    let config = UpdaterConfig::new("o/r", "myapp", "My App", "key", "1.0.0").with_asset_suffix("-arm64");
    assert_eq!(asset_file_name(Platform::Windows, &config), "myapp_setup-arm64.exe");
    assert_eq!(asset_file_name(Platform::Linux, &config), "myapp-arm64.AppImage");
    assert_eq!(asset_file_name(Platform::MacOs, &config), "myapp-arm64.dmg");
    let config = config.with_install_kind(InstallKind::Portable);
    assert_eq!(asset_file_name(Platform::Windows, &config), "myapp-arm64.zip");
    assert_eq!(asset_file_name(Platform::Other, &config), "myapp-arm64.zip");
    assert_eq!(asset_file_name(Platform::Linux, &config), "myapp-arm64.tar.gz");
    assert_eq!(asset_file_name(Platform::MacOs, &config), "myapp-arm64.dmg");
}

#[test]
fn download_directory_depends_on_platform_and_kind() {
    let dir = |platform: Platform, kind: InstallKind| download_dir(platform, kind, true).unwrap();
    assert_eq!(dir(Platform::Windows, InstallKind::Installer), DownloadDir::Temp);
    assert_eq!(dir(Platform::Windows, InstallKind::Portable), DownloadDir::BesideExe);
    assert_eq!(dir(Platform::Linux, InstallKind::Installer), DownloadDir::AppCache);
    assert_eq!(dir(Platform::Linux, InstallKind::Portable), DownloadDir::BesideExe);
    assert_eq!(dir(Platform::MacOs, InstallKind::Portable), DownloadDir::Temp);
    assert_eq!(dir(Platform::Other, InstallKind::Portable), DownloadDir::Temp);
    assert_eq!(download_dir(Platform::Linux, InstallKind::Portable, false).unwrap(), DownloadDir::BesideExe);
}

#[test]
fn an_appimage_update_needs_an_appimage() {
    assert_eq!(
        download_dir(Platform::Linux, InstallKind::Installer, false).unwrap_err().message(),
        "I/O error: Not running from an AppImage; cannot self-update."
    );
}

#[test]
fn cache_base_prefers_xdg_cache_home() {
    assert_eq!(cache_base(Some("/x"), Some("/h")).unwrap(), CacheBase::Cache("/x"));
    assert_eq!(cache_base(None, Some("/h")).unwrap(), CacheBase::Home("/h"));
    assert_eq!(
        cache_base::<&str>(None, None).unwrap_err().message(),
        "I/O error: Could not determine a cache directory: neither XDG_CACHE_HOME nor HOME is set"
    );
}

#[test]
fn lookups_that_fail_are_reported() {
    assert!(cache_created(Ok(())).is_ok());
    assert_eq!(
        cache_created(Err("full".to_string())).unwrap_err().message(),
        "I/O error: Failed to create cache directory: full"
    );
    assert_eq!(exe_dir(Ok(Some("/opt"))).unwrap(), "/opt");
    assert_eq!(exe_dir::<&str>(Ok(None)).unwrap_err().message(), "I/O error: Failed to get exe directory");
    assert_eq!(
        exe_dir::<&str>(Err("gone".to_string())).unwrap_err().message(),
        "I/O error: Failed to determine exe path: gone"
    );
}

#[test]
fn shell_scripts_wait_for_the_app_and_start_it_in_the_end() {
    let replace = installer_script(5, "/d/new", "/a/cur");
    assert!(replace.starts_with(&wait_clause(5)));
    assert!(replace.ends_with("; nohup '/a/cur' >/dev/null 2>&1 &"));
    let unpack = targz_update_script(5, "/d/u", "/a", "/a/cur");
    assert!(unpack.starts_with(&wait_clause(5)));
    assert!(unpack.ends_with("; nohup '/a/cur' >/dev/null 2>&1 &"));
}
