use ship_shape::{InstallKind, UpdateChannel, UpdaterConfig};

fn config() -> UpdaterConfig {
    UpdaterConfig::new("o/r", "myapp", "My App", "key", "1.0.0")
}

#[test]
fn user_agent_defaults_to_name_and_version() {
    assert_eq!(config().user_agent, "myapp/1.0.0");
}

#[test]
fn installer_args_default_to_inno_silent() {
    assert_eq!(config().installer_args, vec!["/silent".to_string()]);
}

#[test]
fn with_installer_args_replaces_default() {
    assert_eq!(config().with_installer_args(vec!["/S"]).installer_args, vec!["/S".to_string()]);
}

#[test]
fn effective_asset_suffix_defaults_to_shared_suffix() {
    let config = config().with_asset_suffix("-x64");
    assert_eq!(config.clone().with_install_kind(InstallKind::Installer).effective_asset_suffix(), "-x64");
    assert_eq!(config.with_install_kind(InstallKind::Portable).effective_asset_suffix(), "-x64");
}

#[test]
fn installer_asset_suffix_overrides_installer_only() {
    let config = config().with_asset_suffix("-x64").with_installer_asset_suffix("");
    assert_eq!(config.clone().with_install_kind(InstallKind::Installer).effective_asset_suffix(), "");
    assert_eq!(config.with_install_kind(InstallKind::Portable).effective_asset_suffix(), "-x64");
}

#[test]
fn new_config_takes_its_arguments_in_order() {
    let config = config();
    assert_eq!(config.github_repo, "o/r");
    assert_eq!(config.app_name, "myapp");
    assert_eq!(config.app_display_name, "My App");
    assert_eq!(config.minisign_public_key, "key");
    assert_eq!(config.current_version, "1.0.0");
    assert_eq!(config.current_commit, "");
    assert_eq!(config.install_kind, InstallKind::Installer);
    assert_eq!(config.asset_suffix, "");
    assert_eq!(config.installer_asset_suffix, None);
}

#[test]
fn builders_change_one_field_each() {
    let config = config().with_commit("abc".to_string()).with_user_agent("agent").with_installer_args(vec![
        "/a".to_string(),
        "/b".to_string(),
    ]);
    assert_eq!(config.current_commit, "abc");
    assert_eq!(config.user_agent, "agent");
    assert_eq!(config.installer_args, vec!["/a".to_string(), "/b".to_string()]);
    assert_eq!(config.app_name, "myapp");
    assert_eq!(config.current_version, "1.0.0");
}

#[test]
fn defaults_are_installer_and_stable() {
    assert_eq!(InstallKind::default(), InstallKind::Installer);
    assert_eq!(UpdateChannel::default(), UpdateChannel::Stable);
}
