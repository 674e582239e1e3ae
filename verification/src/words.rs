//! The texts that users read, in their language.

use vstd::prelude::*;

verus! {

/// Translates a text with `patois::t`. What comes back depends on the catalogs that the app has
/// registered and on the active locale, so nothing is claimed of it.
#[verifier::external_body]
fn translate(text: &str) -> (translation: String)
{
    patois::t(text)
}

/// The texts that users read. Where one holds `%s`, something is put in its place.
#[derive(Debug)]
pub struct Words {
    /// `Update to %s`
    pub update_to: String,
    /// `A new version of %s is available. Here's what's new:`
    pub new_version: String,
    /// `&Yes`
    pub yes: String,
    /// `&No`
    pub no: String,
    /// `No release notes provided.`
    pub no_notes: String,
    /// `%s Update`
    pub update_of: String,
    /// `Downloading update...`
    pub downloading: String,
    /// `No updates available.`
    pub no_updates: String,
    /// `No updates available. Latest version: %s`
    pub latest_version: String,
    /// `Info`
    pub info: String,
    /// `Error`
    pub error: String,
    /// `Security verification failed. The update might have been tampered with: %s`
    pub tampered: String,
    /// `Security Error`
    pub security_error: String,
    /// `Update failed`
    pub update_failed: String,
    /// `Update Ready`
    pub update_ready: String,
    /// `Update downloaded to: %s\nPlease install it manually.`
    pub downloaded_to: String,
    /// `Unknown update file format.`
    pub unknown_format: String,
    /// `Failed to get current exe path`
    pub no_exe_path: String,
    /// `Failed to launch installer script`
    pub no_installer_script: String,
    /// `Failed to launch update script`
    pub no_update_script: String,
    /// `Not running from an AppImage; cannot self-update.`
    pub no_appimage: String,
    /// `Failed to open disk image`
    pub no_disk_image: String,
    /// `The update has been downloaded and its disk image opened. Quit %s and drag the new version
    /// into Applications to finish installing.`
    pub drag_over: String,
}

impl Words {
    /// Whether every text is one that `lookup` gives for the English one.
    pub open spec fn found_by<F: Fn(&str) -> String>(self, lookup: F) -> bool {
        &&& call_ensures(lookup, ("Update to %s",), self.update_to)
        &&& call_ensures(
            lookup,
            ("A new version of %s is available. Here's what's new:",),
            self.new_version,
        )
        &&& call_ensures(lookup, ("&Yes",), self.yes)
        &&& call_ensures(lookup, ("&No",), self.no)
        &&& call_ensures(lookup, ("No release notes provided.",), self.no_notes)
        &&& call_ensures(lookup, ("%s Update",), self.update_of)
        &&& call_ensures(lookup, ("Downloading update...",), self.downloading)
        &&& call_ensures(lookup, ("No updates available.",), self.no_updates)
        &&& call_ensures(
            lookup,
            ("No updates available. Latest version: %s",),
            self.latest_version,
        )
        &&& call_ensures(lookup, ("Info",), self.info)
        &&& call_ensures(lookup, ("Error",), self.error)
        &&& call_ensures(
            lookup,
            ("Security verification failed. The update might have been tampered with: %s",),
            self.tampered,
        )
        &&& call_ensures(lookup, ("Security Error",), self.security_error)
        &&& call_ensures(lookup, ("Update failed",), self.update_failed)
        &&& call_ensures(lookup, ("Update Ready",), self.update_ready)
        &&& call_ensures(
            lookup,
            ("Update downloaded to: %s\nPlease install it manually.",),
            self.downloaded_to,
        )
        &&& call_ensures(lookup, ("Unknown update file format.",), self.unknown_format)
        &&& call_ensures(lookup, ("Failed to get current exe path",), self.no_exe_path)
        &&& call_ensures(lookup, ("Failed to launch installer script",), self.no_installer_script)
        &&& call_ensures(lookup, ("Failed to launch update script",), self.no_update_script)
        &&& call_ensures(
            lookup,
            ("Not running from an AppImage; cannot self-update.",),
            self.no_appimage,
        )
        &&& call_ensures(lookup, ("Failed to open disk image",), self.no_disk_image)
        &&& call_ensures(
            lookup,
            (
                "The update has been downloaded and its disk image opened. Quit %s and drag the new version into Applications to finish installing.",
            ),
            self.drag_over,
        )
    }

    /// The texts that `lookup` gives for the English ones.
    pub fn with<F: Fn(&str) -> String>(lookup: F) -> (words: Words)
        requires
            forall|text: &str| #[trigger] call_requires(lookup, (text,)),
        ensures
            words.found_by(lookup),
    {
        Words {
            update_to: lookup("Update to %s"),
            new_version: lookup("A new version of %s is available. Here's what's new:"),
            yes: lookup("&Yes"),
            no: lookup("&No"),
            no_notes: lookup("No release notes provided."),
            update_of: lookup("%s Update"),
            downloading: lookup("Downloading update..."),
            no_updates: lookup("No updates available."),
            latest_version: lookup("No updates available. Latest version: %s"),
            info: lookup("Info"),
            error: lookup("Error"),
            tampered: lookup(
                "Security verification failed. The update might have been tampered with: %s",
            ),
            security_error: lookup("Security Error"),
            update_failed: lookup("Update failed"),
            update_ready: lookup("Update Ready"),
            downloaded_to: lookup("Update downloaded to: %s\nPlease install it manually."),
            unknown_format: lookup("Unknown update file format."),
            no_exe_path: lookup("Failed to get current exe path"),
            no_installer_script: lookup("Failed to launch installer script"),
            no_update_script: lookup("Failed to launch update script"),
            no_appimage: lookup("Not running from an AppImage; cannot self-update."),
            no_disk_image: lookup("Failed to open disk image"),
            drag_over: lookup(
                "The update has been downloaded and its disk image opened. Quit %s and drag the new version into Applications to finish installing.",
            ),
        }
    }

    /// Whether every text is a translation of the English one into the language of the user.
    pub closed spec fn translated(self) -> bool {
        self.found_by(translate)
    }

    /// The texts in the language of the user.
    pub(crate) fn load() -> (words: Words)
        ensures
            words.translated(),
    {
        Words::with(translate)
    }
}

} // verus!
