use ship_shape::release::{find_pair, pick_asset_pair, require_asset_pair, GithubRelease, ReleaseAsset};
use ship_shape::{InstallKind, Platform, UpdaterConfig};

fn make_assets(entries: &[(&str, &str)]) -> Vec<ReleaseAsset> {
    entries
        .iter()
        .map(|(name, url)| ReleaseAsset { name: name.to_string(), browser_download_url: url.to_string() })
        .collect()
}

fn release(assets: Option<Vec<ReleaseAsset>>) -> GithubRelease {
    GithubRelease { tag_name: "v1.0.0".to_string(), body: None, assets }
}

#[test]
fn pick_asset_pair_installer() {
    let assets = make_assets(&[
        ("myapp.zip", "https://example.com/myapp.zip"),
        ("myapp.zip.minisig", "https://example.com/myapp.zip.minisig"),
        ("myapp_setup.exe", "https://example.com/myapp_setup.exe"),
        ("myapp_setup.exe.minisig", "https://example.com/myapp_setup.exe.minisig"),
    ]);
    let (url, sig) = pick_asset_pair("myapp", true, &assets).unwrap();
    assert_eq!(url, "https://example.com/myapp_setup.exe");
    assert_eq!(sig, "https://example.com/myapp_setup.exe.minisig");
}

#[test]
fn pick_asset_pair_zip() {
    let assets = make_assets(&[
        ("myapp.zip", "https://example.com/myapp.zip"),
        ("myapp.zip.minisig", "https://example.com/myapp.zip.minisig"),
        ("myapp_setup.exe", "https://example.com/myapp_setup.exe"),
        ("myapp_setup.exe.minisig", "https://example.com/myapp_setup.exe.minisig"),
    ]);
    let (url, sig) = pick_asset_pair("myapp", false, &assets).unwrap();
    assert_eq!(url, "https://example.com/myapp.zip");
    assert_eq!(sig, "https://example.com/myapp.zip.minisig");
}

#[test]
fn pick_asset_pair_case_insensitive() {
    let assets = make_assets(&[
        ("MYAPP.ZIP", "https://example.com/MYAPP.ZIP"),
        ("MYAPP.ZIP.MINISIG", "https://example.com/MYAPP.ZIP.MINISIG"),
    ]);
    let (url, sig) = pick_asset_pair("myapp", false, &assets).unwrap();
    assert_eq!(url, "https://example.com/MYAPP.ZIP");
    assert_eq!(sig, "https://example.com/MYAPP.ZIP.MINISIG");
}

#[test]
fn pick_asset_pair_returns_none_when_missing() {
    let assets = make_assets(&[("notes.txt", "https://example.com/notes.txt")]);
    assert!(pick_asset_pair("myapp", true, &assets).is_none());
    assert!(pick_asset_pair("myapp", false, &assets).is_none());
}

#[test]
fn pick_asset_pair_returns_none_when_sig_missing() {
    let assets = make_assets(&[("myapp.zip", "https://example.com/myapp.zip")]);
    assert!(pick_asset_pair("myapp", false, &assets).is_none());
}

#[test]
fn find_pair_takes_the_last_of_several() {
    let assets = make_assets(&[("a", "1"), ("A", "2"), ("a.minisig", "3"), ("b", "4"), ("a.MINISIG", "5")]);
    assert_eq!(find_pair("a", &assets), Some(("2".to_string(), "5".to_string())));
}

#[test]
fn find_pair_ignores_the_case_of_ascii_letters_only() {
    let assets = make_assets(&[("\u{c4}pp.zip", "1"), ("\u{c4}PP.zip.minisig", "2")]);
    assert!(find_pair("\u{e4}pp.zip", &assets).is_none());
    assert_eq!(find_pair("\u{c4}pP.ZIP", &assets), Some(("1".to_string(), "2".to_string())));
}

#[test]
fn required_pair_is_named_by_platform_kind_and_suffix() {
    let entries = [
        ("myapp_setup.exe", "w1"),
        ("myapp_setup.exe.minisig", "w2"),
        ("myapp-x64.zip", "z1"),
        ("myapp-x64.zip.minisig", "z2"),
        ("myapp.AppImage", "l1"),
        ("myapp.AppImage.minisig", "l2"),
        ("myapp-x64.tar.gz", "t1"),
        ("myapp-x64.tar.gz.minisig", "t2"),
        ("myapp-x64.dmg", "m1"),
        ("myapp-x64.dmg.minisig", "m2"),
    ];
    let release = release(Some(make_assets(&entries)));
    let installer =
        UpdaterConfig::new("o/r", "myapp", "My App", "key", "1.0.0").with_asset_suffix("-x64").with_installer_asset_suffix("");
    let portable = installer.clone().with_install_kind(InstallKind::Portable);
    let pair = |platform: Platform, config: &UpdaterConfig| require_asset_pair(platform, config, &release).unwrap();
    assert_eq!(pair(Platform::Windows, &installer), ("w1".to_string(), "w2".to_string()));
    assert_eq!(pair(Platform::Other, &installer), ("w1".to_string(), "w2".to_string()));
    assert_eq!(pair(Platform::Windows, &portable), ("z1".to_string(), "z2".to_string()));
    assert_eq!(pair(Platform::Linux, &installer), ("l1".to_string(), "l2".to_string()));
    assert_eq!(pair(Platform::Linux, &portable), ("t1".to_string(), "t2".to_string()));
    assert_eq!(pair(Platform::MacOs, &installer), ("m1".to_string(), "m2".to_string()));
    assert_eq!(pair(Platform::MacOs, &portable), ("m1".to_string(), "m2".to_string()));
}

#[test]
fn releases_without_files_have_no_download() {
    let config = UpdaterConfig::new("o/r", "myapp", "My App", "key", "1.0.0");
    let none = "No download: Latest release does not include downloadable assets.";
    let no_match = "No download: Update is available but no matching download asset or signature was found.";
    let error = |assets: Option<Vec<ReleaseAsset>>| {
        require_asset_pair(Platform::Windows, &config, &release(assets)).unwrap_err().message()
    };
    assert_eq!(error(None), none);
    assert_eq!(error(Some(Vec::new())), none);
    assert_eq!(error(Some(make_assets(&[("myapp_setup.exe", "1")]))), no_match);
}

#[test]
fn order_and_other_files_make_no_difference() {
    let listed = [("app.zip", "1"), ("APP.zip.minisig", "2")];
    let expected = Some(("1".to_string(), "2".to_string()));
    for entries in [
        vec![listed[0], listed[1]],
        vec![listed[1], listed[0]],
        vec![("x", "3"), listed[1], ("app.zip.sig", "4"), listed[0], ("app_setup.exe", "5")],
    ] {
        assert_eq!(pick_asset_pair("app", false, &make_assets(&entries)), expected);
    }
    assert_eq!(pick_asset_pair("app", false, &make_assets(&[("x", "3"), listed[1]])), None);
}
