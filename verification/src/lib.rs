//! The decisions of an auto-updater for desktop apps, verified.
//!
//! The library decides; it does no input or output of its own. A caller sends the requests, reads
//! and writes the files, shows the dialogs and launches the commands that the library asks for:
//!
//! - [`check`] looks for an update on the stable or the dev channel of a GitHub repository.
//! - [`download`] fetches an update and verifies it against its minisign signature.
//! - [`install`] plans how an update is applied, and [`platform`] knows what differs between
//!   operating systems.
//! - [`ui`] decides what the user gets to see, in the [`words`] of the user.
//!
//! Below these, [`release`] picks the right file from a release, [`semver`] reads versions, and
//! [`text`] has the operations on text that everything is built from.

pub mod check;
pub mod config;
pub mod download;
pub mod error;
pub mod http;
pub mod install;
pub mod platform;
pub mod release;
pub mod semver;
pub mod text;
pub mod ui;
pub mod words;

pub use check::{check_for_updates, UpdateAvailableResult, UpdateChannel, UpdateCheckOutcome};
pub use config::{InstallKind, UpdaterConfig};
pub use error::UpdateError;
pub use platform::{InstallOutcome, Platform};
