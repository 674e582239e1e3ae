use ship_shape::platform::windows::{asset_name_parts, installer_script, ps_quote, zip_update_script};
use ship_shape::InstallKind;

#[test]
fn ps_quote_wraps_in_single_quotes() {
    assert_eq!(ps_quote(r"C:\Temp\app_setup.exe"), r"'C:\Temp\app_setup.exe'");
}

#[test]
fn ps_quote_doubles_embedded_single_quotes() {
    assert_eq!(ps_quote(r"C:\Users\O'Brien\app.exe"), r"'C:\Users\O''Brien\app.exe'");
}

#[test]
fn installer_script_uses_configured_args() {
    let script = installer_script(42, &["/S".to_string()], r"C:\Temp\app_setup.exe", r"C:\App\app.exe");
    assert_eq!(
        script,
        r"Start-Sleep -Seconds 1; Wait-Process -Id 42 -ErrorAction SilentlyContinue; Start-Process -FilePath 'C:\Temp\app_setup.exe' -ArgumentList '/S' -Wait; Start-Process -FilePath 'C:\App\app.exe'"
    );
}

#[test]
fn installer_script_quotes_each_arg() {
    let args = ["/S".to_string(), r"/D=C:\Program Files\App".to_string()];
    let script = installer_script(1, &args, r"C:\t\s.exe", r"C:\a\a.exe");
    assert!(script.contains(r"-ArgumentList '/S','/D=C:\Program Files\App' -Wait"));
}

#[test]
fn installer_script_omits_argument_list_when_empty() {
    let script = installer_script(7, &[], r"C:\t\s.exe", r"C:\a\a.exe");
    assert!(!script.contains("-ArgumentList"));
    assert!(script.contains(r"Start-Process -FilePath 'C:\t\s.exe' -Wait"));
}

#[test]
fn installer_script_escapes_quotes_in_paths() {
    let script = installer_script(7, &[], r"C:\Users\O'Brien\s.exe", r"C:\Users\O'Brien\a.exe");
    assert!(script.contains(r"'C:\Users\O''Brien\s.exe'"));
    assert!(script.contains(r"'C:\Users\O''Brien\a.exe'"));
}

#[test]
fn zip_script_escapes_quotes_in_paths() {
    let script = zip_update_script(7, r"C:\Users\O'Brien\app.zip", r"C:\Users\O'Brien", r"C:\Users\O'Brien\app.exe");
    assert!(
        script.contains(r"Expand-Archive -Path 'C:\Users\O''Brien\app.zip' -DestinationPath 'C:\Users\O''Brien' -Force")
    );
    assert!(script.contains(r"Remove-Item -Path 'C:\Users\O''Brien\app.zip' -Force"));
    assert!(script.contains(r"Start-Process 'C:\Users\O''Brien\app.exe'"));
}

#[test]
fn zip_script_is_exactly_this() {
    assert_eq!(
        zip_update_script(9, "z", "d", "e"),
        "Start-Sleep -Seconds 1; Wait-Process -Id 9 -ErrorAction SilentlyContinue; Expand-Archive -Path 'z' -DestinationPath 'd' -Force; Remove-Item -Path 'z' -Force; Start-Process 'e'"
    );
}

#[test]
fn windows_asset_name_depends_on_install_kind() {
    assert_eq!(asset_name_parts(InstallKind::Installer), ("_setup", "exe"));
    assert_eq!(asset_name_parts(InstallKind::Portable), ("", "zip"));
}

#[test]
fn scripts_wait_for_the_app_and_start_it_in_the_end() {
    let waiting = "Start-Sleep -Seconds 1; Wait-Process -Id 5 -ErrorAction SilentlyContinue; ";
    let run = installer_script(5, &["/S".to_string()], "i.exe", "a.exe");
    assert!(run.starts_with(waiting));
    assert!(run.ends_with("; Start-Process -FilePath 'a.exe'"));
    let unpack = zip_update_script(5, "u.zip", "d", "a.exe");
    assert!(unpack.starts_with(waiting));
    assert!(unpack.ends_with("; Start-Process 'a.exe'"));
}

/// What a single-quoted literal stands for, if it ends where the text ends: of two quotes in a row,
/// straight or typographic, the first stands for itself, and a lone one ends the literal.
fn read_literal(literal: &str) -> Option<String> {
    let is_quote = |c: char| c == '\'' || ('\u{2018}'..='\u{201b}').contains(&c);
    let mut out = String::new();
    let mut rest = literal.chars();
    if !rest.next().is_some_and(is_quote) {
        return None;
    }
    while let Some(c) = rest.next() {
        if is_quote(c) {
            match rest.next() {
                None => return Some(out),
                Some(d) if is_quote(d) => out.push(c),
                Some(_) => return None,
            }
        } else {
            out.push(c);
        }
    }
    None
}

#[test]
fn a_quoted_text_without_typographic_quotes_is_one_literal() {
    for text in ["", "'", "'''", "a'b", "C:\\Program Files\\O'Brien", "\u{201c}x\u{201d} \u{e9}"] {
        assert_eq!(read_literal(&ps_quote(text)), Some(text.to_string()));
    }
}

#[test]
fn typographic_quotes_are_not_doubled() {
    assert_eq!(ps_quote("O\u{2019}Brien"), "'O\u{2019}Brien'");
}
