//! What the app that updates itself has to say about itself.

use vstd::prelude::*;

verus! {

/// How the running copy of the app was installed. Selects which release asset to download and how
/// to apply it.
#[derive(Debug, Clone, Copy, PartialEq, Eq, Structural)]
pub enum InstallKind {
    /// Installed by `{app_name}_setup.exe`. The update runs the new installer.
    Installer,
    /// Unpacked from `{app_name}.zip`. The update extracts the new archive over the app folder.
    Portable,
}

impl Default for InstallKind {
    fn default() -> (kind: Self)
        ensures
            kind == InstallKind::Installer,
    {
        InstallKind::Installer
    }
}

/// Configuration for the updater. Construct once and pass to all ship-shape functions.
#[derive(Debug, Clone)]
pub struct UpdaterConfig {
    /// GitHub repository in `"owner/repo"` format.
    pub github_repo: String,
    /// App name used to derive asset file names.
    /// On Windows a zip asset is expected to be `{app_name}.zip` and an installer
    /// `{app_name}_setup.exe`. On Linux the equivalents are `{app_name}.tar.gz` and
    /// `{app_name}.AppImage`. On macOS the expected asset is a disk image,
    /// `{app_name}.dmg`; `install_kind` is ignored there since there is only one asset kind.
    pub app_name: String,
    /// Human-readable app name used in dialog titles and messages (e.g. `"Paperback"`).
    pub app_display_name: String,
    /// Base64-encoded minisign public key used to verify downloaded files.
    pub minisign_public_key: String,
    /// Semver version of the running app, compared against release tags on
    /// [`UpdateChannel::Stable`](crate::UpdateChannel::Stable).
    pub current_version: String,
    /// Short or full git commit hash of the running app, compared against the rolling dev release
    /// on [`UpdateChannel::Dev`](crate::UpdateChannel::Dev). Empty by default.
    pub current_commit: String,
    /// How the running app was installed. Defaults to [`InstallKind::Installer`].
    pub install_kind: InstallKind,
    /// Value sent as the `User-Agent` header for all HTTP requests. Defaults to
    /// `"{app_name}/{current_version}"`.
    pub user_agent: String,
    /// Inserted immediately before the extension in the expected asset file names, e.g.
    /// `"-arm64"` to look for `{app_name}-arm64.zip` / `{app_name}_setup-arm64.exe` instead of
    /// the unsuffixed names. Empty by default. Use this when a single release publishes
    /// multiple architecture-specific builds under distinct asset names.
    pub asset_suffix: String,
    /// Overrides [`UpdaterConfig::asset_suffix`] for the installer asset name only. `None`
    /// (the default) applies `asset_suffix` to installer and zip names alike. Set it to `""`
    /// when a single architecture-independent (fat) installer serves every build while zip
    /// assets stay per-architecture.
    pub installer_asset_suffix: Option<String>,
    /// Command-line arguments passed to a downloaded installer on Windows. Defaults to
    /// `["/silent"]` (Inno Setup); NSIS installers need `["/S"]`.
    pub installer_args: Vec<String>,
}

/// The texts that a list of strings holds.
pub open spec fn texts(list: Seq<String>) -> Seq<Seq<char>> {
    Seq::new(list.len(), |i: int| list[i]@)
}

impl UpdaterConfig {
    /// Creates a config with default values for every optional field.
    pub fn new(
        github_repo: impl Into<String>,
        app_name: impl Into<String>,
        app_display_name: impl Into<String>,
        minisign_public_key: impl Into<String>,
        current_version: impl Into<String>,
    ) -> (config: Self)
        ensures
            call_ensures(Into::into, (github_repo,), config.github_repo),
            call_ensures(Into::into, (app_name,), config.app_name),
            call_ensures(Into::into, (app_display_name,), config.app_display_name),
            call_ensures(Into::into, (minisign_public_key,), config.minisign_public_key),
            call_ensures(Into::into, (current_version,), config.current_version),
            config.current_commit@ == ""@,
            config.install_kind == InstallKind::Installer,
            config.user_agent@ == config.app_name@ + "/"@ + config.current_version@,
            config.asset_suffix@ == ""@,
            config.installer_asset_suffix is None,
            texts(config.installer_args@) == seq!["/silent"@],
    {
        let app_name: String = app_name.into();
        let current_version: String = current_version.into();
        let user_agent = app_name.clone().concat("/").concat(current_version.as_str());
        let mut installer_args: Vec<String> = Vec::new();
        installer_args.push(String::from("/silent"));
        assert(texts(installer_args@) =~= seq!["/silent"@]);
        Self {
            github_repo: github_repo.into(),
            user_agent,
            app_name,
            app_display_name: app_display_name.into(),
            minisign_public_key: minisign_public_key.into(),
            current_version,
            current_commit: String::from(""),
            install_kind: InstallKind::default(),
            asset_suffix: String::from(""),
            installer_asset_suffix: None,
            installer_args,
        }
    }

    /// Sets the commit hash of the running app. See [`UpdaterConfig::current_commit`].
    #[must_use]
    pub fn with_commit(self, commit: impl Into<String>) -> (config: Self)
        ensures
            call_ensures(Into::into, (commit,), config.current_commit),
            config == (UpdaterConfig { current_commit: config.current_commit, ..self }),
    {
        let mut config = self;
        config.current_commit = commit.into();
        config
    }

    /// Sets how the running app was installed. See [`UpdaterConfig::install_kind`].
    #[must_use]
    pub fn with_install_kind(self, install_kind: InstallKind) -> (config: Self)
        ensures
            config == (UpdaterConfig { install_kind, ..self }),
    {
        let mut config = self;
        config.install_kind = install_kind;
        config
    }

    /// Sets the `User-Agent` header. See [`UpdaterConfig::user_agent`].
    #[must_use]
    pub fn with_user_agent(self, user_agent: impl Into<String>) -> (config: Self)
        ensures
            call_ensures(Into::into, (user_agent,), config.user_agent),
            config == (UpdaterConfig { user_agent: config.user_agent, ..self }),
    {
        let mut config = self;
        config.user_agent = user_agent.into();
        config
    }

    /// Sets the suffix inserted before the extension in the expected asset file names. See
    /// [`UpdaterConfig::asset_suffix`].
    #[must_use]
    pub fn with_asset_suffix(self, suffix: impl Into<String>) -> (config: Self)
        ensures
            call_ensures(Into::into, (suffix,), config.asset_suffix),
            config == (UpdaterConfig { asset_suffix: config.asset_suffix, ..self }),
    {
        let mut config = self;
        config.asset_suffix = suffix.into();
        config
    }

    /// Sets the suffix used for the installer asset name only. See
    /// [`UpdaterConfig::installer_asset_suffix`].
    #[must_use]
    pub fn with_installer_asset_suffix(self, suffix: impl Into<String>) -> (config: Self)
        ensures
            config.installer_asset_suffix matches Some(s) && call_ensures(
                Into::into,
                (suffix,),
                s,
            ),
            config == (UpdaterConfig {
                installer_asset_suffix: config.installer_asset_suffix,
                ..self
            }),
    {
        let mut config = self;
        config.installer_asset_suffix = Some(suffix.into());
        config
    }

    /// Sets the command-line arguments passed to a downloaded installer. See
    /// [`UpdaterConfig::installer_args`].
    #[must_use]
    pub fn with_installer_args<S: Into<String>>(self, args: Vec<S>) -> (config: Self)
        ensures
            config.installer_args@.len() == args@.len(),
            forall|i: int|
                #![trigger args@[i]]
                #![trigger config.installer_args@[i]]
                0 <= i < args@.len() ==> call_ensures(
                    S::into,
                    (args@[i],),
                    config.installer_args@[i],
                ),
            config == (UpdaterConfig { installer_args: config.installer_args, ..self }),
    {
        let mut installer_args: Vec<String> = Vec::new();
        for arg in it: args
            invariant
                it.seq() == args@,
                installer_args@.len() == it.index(),
                forall|i: int|
                    0 <= i < installer_args@.len() ==> call_ensures(
                        S::into,
                        (#[trigger] args@[i],),
                        installer_args@[i],
                    ),
        {
            installer_args.push(arg.into());
        }
        let mut config = self;
        config.installer_args = installer_args;
        config
    }

    /// The suffix that goes into the name of the asset to download: for an installer, the one set
    /// for installers if there is one; the shared one otherwise.
    pub open spec fn suffix(self) -> Seq<char> {
        match (self.install_kind, self.installer_asset_suffix) {
            (InstallKind::Installer, Some(own)) => own@,
            _ => self.asset_suffix@,
        }
    }

    /// The suffix that goes into the name of the asset to download.
    pub fn effective_asset_suffix(&self) -> (suffix: &str)
        ensures
            suffix@ == self.suffix(),
    {
        match self.install_kind {
            InstallKind::Installer => match &self.installer_asset_suffix {
                Some(own) => own.as_str(),
                None => self.asset_suffix.as_str(),
            },
            InstallKind::Portable => self.asset_suffix.as_str(),
        }
    }
}

/// An installer with a suffix of its own gets that one, and in every other case the shared one
/// counts.
pub proof fn law_own_suffix_is_for_installers(config: UpdaterConfig)
    ensures
        config.install_kind == InstallKind::Installer ==> (config.installer_asset_suffix matches Some(
            own,
        ) ==> config.suffix() == own@),
        config.install_kind == InstallKind::Portable || config.installer_asset_suffix is None
            ==> config.suffix() == config.asset_suffix@,
{
}

/// The texts of a list are those of its strings, one by one.
pub proof fn law_texts_are_those_of_the_strings(list: Seq<String>, more: String)
    ensures
        texts(Seq::empty()) == Seq::<Seq<char>>::empty(),
        texts(list.push(more)) == texts(list).push(more@),
{
    assert(texts(list.push(more)) =~= texts(list).push(more@));
}

} // verus!
