# ship-shape

Auto-updater for desktop apps on Windows, macOS and Linux, with its decisions verified in Verus.

- Checks for stable (semver) or dev (commit hash) updates on GitHub Releases
- Downloads with progress reports, and can be cancelled at any time
- Verifies the minisign signature before anything is applied
- Installs: PowerShell scripts on Windows, a mounted disk image on macOS, a shell script on Linux;
  elsewhere the user is told where the file is

## Layout

- `src/` is the library. It does no input or output: it says which request to send, which file to
  write, which dialog to show and which command to launch, takes the answers, and decides what
  follows. Every function has a contract that Verus proves, but for the five that call into another
  crate: those are taken on trust, as said below.
- `app/` is ordinary Rust around it: HTTP, files, processes, and the dialogs.
- `tests/` runs the library on concrete values.

The public proof functions whose names begin with `law_` state what holds of the library as a
whole, such as that no file is kept that was not verified (`download`), that a shell reads a quoted
path back as it was (`platform::linux`), as PowerShell does where the path holds no typographic
quotes (`platform::windows`), that a check that nobody asked for stays quiet unless it finds
something, or that every update flow ends and only then another can start (`ui`).

What Verus takes on trust is a few outside functions: reading and verifying minisign keys and
signatures (`download`, three functions), parsing markdown into events (`ui::markdown`), looking up
translations (`words`, of which nothing is claimed at all), and two operations on strings of the
standard library (`text`).

## Usage

```rust
let config = Arc::new(
    UpdaterConfig::new("owner/repo", "myapp", "My App", "RWQ...minisign-public-key...", env!("CARGO_PKG_VERSION"))
        .with_commit(env!("MY_APP_COMMIT_HASH"))
        .with_install_kind(InstallKind::Portable),
);
ui::run_update_check(config, &frame, UpdateChannel::Stable, CheckTrigger::Manual);
```
