//! Windows: a zip archive unpacked over the app folder, or an installer that is run.

use vstd::prelude::*;

use super::DownloadDir;
use crate::config::{texts, InstallKind};
use crate::text::{
    begins, decimal, ends, holds, joined, law_joining_loses_nothing,
    law_replacing_goes_by_characters, lemma_holds_middle, lemma_joined_four, replace_char, replaced,
    to_decimal,
};

verus! {

/// What stands in an asset's name between the app's name and the suffix, and its extension.
pub open spec fn name_parts(install_kind: InstallKind) -> (Seq<char>, Seq<char>) {
    match install_kind {
        InstallKind::Installer => ("_setup"@, "exe"@),
        InstallKind::Portable => (""@, "zip"@),
    }
}

/// Portable is a `.zip` extracted over the app folder. The installer is a `_setup` program that is
/// run.
pub fn asset_name_parts(install_kind: InstallKind) -> (parts: (&'static str, &'static str))
    ensures
        (parts.0@, parts.1@) == name_parts(install_kind),
{
    match install_kind {
        InstallKind::Installer => ("_setup", "exe"),
        InstallKind::Portable => ("", "zip"),
    }
}

/// The zip lands next to the current executable so that the extraction script can overwrite in
/// place. The installer lands in the system temp directory.
pub fn download_dir(install_kind: InstallKind) -> (dir: DownloadDir)
    ensures
        dir == (match install_kind {
            InstallKind::Installer => DownloadDir::Temp,
            InstallKind::Portable => DownloadDir::BesideExe,
        }),
{
    match install_kind {
        InstallKind::Installer => DownloadDir::Temp,
        InstallKind::Portable => DownloadDir::BesideExe,
    }
}

/// `s` between single quotes, with each of its own doubled.
pub open spec fn ps_quoted(s: Seq<char>) -> Seq<char> {
    "'"@ + replaced(s, '\'', "''"@) + "'"@
}

/// Quotes a text so that `PowerShell` reads it as one literal, provided that it holds no
/// typographic quotes.
pub fn ps_quote(s: &str) -> (literal: String)
    ensures
        literal@ == ps_quoted(s@),
{
    String::from("'").concat(replace_char(s, '\'', "''").as_str()).concat("'")
}

/// The texts of a list, each quoted.
pub open spec fn all_quoted(list: Seq<Seq<char>>) -> Seq<Seq<char>> {
    list.map_values(|s: Seq<char>| ps_quoted(s))
}

/// The part of a `Start-Process` command that hands arguments over; nothing when there are none.
pub open spec fn argument_list(args: Seq<Seq<char>>) -> Seq<char> {
    if args.len() == 0 {
        ""@
    } else {
        " -ArgumentList "@ + joined(all_quoted(args), ","@)
    }
}

/// Writes the quoted arguments with commas between them.
fn quote_args(args: &[String]) -> (out: String)
    ensures
        out@ == joined(all_quoted(texts(args@)), ","@),
{
    let mut out = String::new();
    let ghost all = all_quoted(texts(args@));
    let mut i: usize = 0;
    while i < args.len()
        invariant
            i <= args@.len(),
            all == all_quoted(texts(args@)),
            out@ == joined(all.take(i as int), ","@),
        decreases args@.len() - i,
    {
        assert(all.take(i + 1).drop_last() =~= all.take(i as int));
        let ghost done = out@;
        if i > 0 {
            out.append(",");
        }
        out.append(ps_quote(args[i].as_str()).as_str());
        assert(i == 0 ==> done + ps_quoted(args@[i as int]@) =~= ps_quoted(args@[i as int]@));
        i += 1;
    }
    assert(all.take(all.len() as int) =~= all);
    out
}

/// The commands that wait for a process to exit.
pub open spec fn waiting(pid: u32) -> Seq<char> {
    "Start-Sleep -Seconds 1; Wait-Process -Id "@ + decimal(pid as nat)
        + " -ErrorAction SilentlyContinue; "@
}

/// Writes the commands that wait for a process to exit.
fn wait_clause(pid: u32) -> (clause: String)
    ensures
        clause@ == waiting(pid),
{
    String::from("Start-Sleep -Seconds 1; Wait-Process -Id ").concat(
        to_decimal(pid as u128).as_str(),
    ).concat(" -ErrorAction SilentlyContinue; ")
}

/// The commands that run an installer to its end and start the app.
pub open spec fn installing(
    pid: u32,
    installer_args: Seq<Seq<char>>,
    installer: Seq<char>,
    current_exe: Seq<char>,
) -> Seq<char> {
    waiting(pid) + "Start-Process -FilePath "@ + ps_quoted(installer) + argument_list(
        installer_args,
    ) + " -Wait; Start-Process -FilePath "@ + ps_quoted(current_exe)
}

/// Writes the script that waits for the app to exit, runs the installer and starts the app.
pub fn installer_script(
    pid: u32,
    installer_args: &[String],
    installer: &str,
    current_exe: &str,
) -> (script: String)
    ensures
        script@ == installing(pid, texts(installer_args@), installer@, current_exe@),
{
    let arg_clause = if installer_args.len() == 0 {
        String::from("")
    } else {
        String::from(" -ArgumentList ").concat(quote_args(installer_args).as_str())
    };
    wait_clause(pid).concat("Start-Process -FilePath ").concat(
        ps_quote(installer).as_str(),
    ).concat(arg_clause.as_str()).concat(" -Wait; Start-Process -FilePath ").concat(
        ps_quote(current_exe).as_str(),
    )
}

/// The commands that unpack an archive over the app folder and start the app.
pub open spec fn unpacking(
    pid: u32,
    zip: Seq<char>,
    dest_dir: Seq<char>,
    current_exe: Seq<char>,
) -> Seq<char> {
    waiting(pid) + "Expand-Archive -Path "@ + ps_quoted(zip) + " -DestinationPath "@ + ps_quoted(
        dest_dir,
    ) + " -Force; Remove-Item -Path "@ + ps_quoted(zip) + " -Force; Start-Process "@ + ps_quoted(
        current_exe,
    )
}

/// Writes the script that waits for the app to exit, unpacks the archive over its folder, removes
/// the archive and starts the app.
pub fn zip_update_script(pid: u32, zip: &str, dest_dir: &str, current_exe: &str) -> (script: String)
    ensures
        script@ == unpacking(pid, zip@, dest_dir@, current_exe@),
{
    let zip_q = ps_quote(zip);
    wait_clause(pid).concat("Expand-Archive -Path ").concat(zip_q.as_str()).concat(
        " -DestinationPath ",
    ).concat(ps_quote(dest_dir).as_str()).concat(" -Force; Remove-Item -Path ").concat(
        zip_q.as_str(),
    ).concat(" -Force; Start-Process ").concat(ps_quote(current_exe).as_str())
}

/// The scripts wait for the app to exit before they do anything else, and start it in the end.
pub proof fn law_scripts_relaunch_the_app(
    pid: u32,
    args: Seq<Seq<char>>,
    update: Seq<char>,
    dest_dir: Seq<char>,
    current_exe: Seq<char>,
)
    ensures
        begins(installing(pid, args, update, current_exe), waiting(pid)),
        ends(
            installing(pid, args, update, current_exe),
            "; Start-Process -FilePath "@ + ps_quoted(current_exe),
        ),
        begins(unpacking(pid, update, dest_dir, current_exe), waiting(pid)),
        ends(
            unpacking(pid, update, dest_dir, current_exe),
            "; Start-Process "@ + ps_quoted(current_exe),
        ),
{
    reveal_strlit(" -Wait; Start-Process -FilePath ");
    reveal_strlit("; Start-Process -FilePath ");
    reveal_strlit(" -Force; Start-Process ");
    reveal_strlit("; Start-Process ");
    let run = installing(pid, args, update, current_exe);
    let run_end = "; Start-Process -FilePath "@ + ps_quoted(current_exe);
    assert(run.subrange(0, waiting(pid).len() as int) =~= waiting(pid));
    assert(run.subrange(run.len() - run_end.len(), run.len() as int) =~= run_end);
    let unpack = unpacking(pid, update, dest_dir, current_exe);
    let unpack_end = "; Start-Process "@ + ps_quoted(current_exe);
    assert(unpack.subrange(0, waiting(pid).len() as int) =~= waiting(pid));
    assert(unpack.subrange(unpack.len() - unpack_end.len(), unpack.len() as int) =~= unpack_end);
}

/// Whether `PowerShell` takes a character for a single quote: the straight one, or one of the
/// typographic ones.
pub open spec fn is_ps_quote(c: char) -> bool {
    c == '\'' || 0x2018 <= c as u32 <= 0x201b
}

/// Whether a text holds none of the typographic quotes that `PowerShell` takes for single quotes.
pub open spec fn no_curly_quotes(s: Seq<char>) -> bool {
    forall|i: int| 0 <= i < s.len() ==> !(0x2018 <= #[trigger] s[i] as u32 <= 0x201b)
}

/// What `PowerShell` makes of the rest of a single-quoted literal, after its opening quote: of two
/// quotes in a row the first stands for itself, a lone one ends the literal, and everything else
/// stands for itself. Nothing, when the literal does not end with the text.
pub open spec fn ps_read(s: Seq<char>) -> Option<Seq<char>>
    decreases s.len(),
{
    if s.len() == 0 {
        None
    } else if is_ps_quote(s[0]) {
        if s.len() == 1 {
            Some(Seq::empty())
        } else if is_ps_quote(s[1]) {
            match ps_read(s.skip(2)) {
                Some(rest) => Some(seq![s[0]] + rest),
                None => None,
            }
        } else {
            None
        }
    } else {
        match ps_read(s.skip(1)) {
            Some(rest) => Some(seq![s[0]] + rest),
            None => None,
        }
    }
}

proof fn lemma_ps_read(s: Seq<char>, tail: Seq<char>)
    requires
        no_curly_quotes(s),
    ensures
        ps_read(replaced(s, '\'', "''"@) + tail) == (match ps_read(tail) {
            Some(rest) => Some(s + rest),
            None => None,
        }),
    decreases s.len(),
{
    reveal_strlit("''");
    let done = replaced(s, '\'', "''"@);
    if s.len() == 0 {
        assert(done + tail =~= tail);
        if let Some(rest) = ps_read(tail) {
            assert(s + rest =~= rest);
        }
    } else {
        let init = s.drop_last();
        let c = s.last();
        let head = replaced(init, '\'', "''"@);
        let piece = if c == '\'' {
            "''"@
        } else {
            seq![c]
        };
        assert(done + tail =~= head + (piece + tail));
        assert forall|i: int| 0 <= i < init.len() implies !(0x2018 <= #[trigger] init[i] as u32
            <= 0x201b) by {
            assert(init[i] == s[i]);
        }
        assert(s[s.len() - 1] == c);
        lemma_ps_read(init, piece + tail);
        assert((piece + tail)[0] == c);
        if c == '\'' {
            assert((piece + tail)[1] == '\'');
            assert((piece + tail).skip(2) =~= tail);
        } else {
            assert((piece + tail).skip(1) =~= tail);
        }
        if let Some(rest) = ps_read(tail) {
            assert(init + (seq![c] + rest) =~= s + rest);
        }
    }
}

/// `PowerShell` reads a quoted text without typographic quotes as one literal, and that literal is
/// the text. A typographic quote is not doubled, and would end the literal.
pub proof fn law_powershell_reads_back(s: Seq<char>)
    requires
        no_curly_quotes(s),
    ensures
        ps_quoted(s)[0] == '\'',
        ps_read(ps_quoted(s).skip(1)) == Some(s),
{
    reveal_strlit("'");
    let body = replaced(s, '\'', "''"@) + "'"@;
    assert(ps_quoted(s) =~= "'"@ + body);
    assert(ps_quoted(s).skip(1) =~= body);
    lemma_ps_read(s, "'"@);
    assert(ps_read("'"@) == Some(Seq::<char>::empty()));
    assert(s + Seq::<char>::empty() =~= s);
}

/// The arguments of an installer are all handed over, each quoted, in their order, with commas
/// between them; where there are none, nothing is.
pub proof fn law_all_arguments_are_handed_over(args: Seq<Seq<char>>, more: Seq<char>)
    ensures
        argument_list(Seq::empty()) == Seq::<char>::empty(),
        argument_list(seq![more]) == " -ArgumentList "@ + ps_quoted(more),
        args.len() > 0 ==> argument_list(args.push(more)) == argument_list(args) + ","@
            + ps_quoted(more),
{
    reveal_strlit("");
    assert(all_quoted(seq![more]) =~= seq![ps_quoted(more)]);
    assert(all_quoted(args.push(more)) =~= all_quoted(args).push(ps_quoted(more)));
    law_joining_loses_nothing(all_quoted(args), ps_quoted(more), ","@);
    if args.len() > 0 {
        assert(argument_list(args.push(more)) =~= argument_list(args) + ","@ + ps_quoted(more));
    }
}

/// The steps of the scripts, one after the other: wait, run the installer to its end and start the
/// app; or wait, unpack the archive into the app folder, remove it and start the app.
pub proof fn law_scripts_take_these_steps(
    pid: u32,
    args: Seq<Seq<char>>,
    update: Seq<char>,
    dest_dir: Seq<char>,
    current_exe: Seq<char>,
)
    ensures
        installing(pid, args, update, current_exe) == joined(
            seq![
                "Start-Sleep -Seconds 1"@,
                "Wait-Process -Id "@ + decimal(pid as nat) + " -ErrorAction SilentlyContinue"@,
                "Start-Process -FilePath "@ + ps_quoted(update) + argument_list(args) + " -Wait"@,
                "Start-Process -FilePath "@ + ps_quoted(current_exe),
            ],
            "; "@,
        ),
        unpacking(pid, update, dest_dir, current_exe) == joined(
            seq![
                "Start-Sleep -Seconds 1"@,
                "Wait-Process -Id "@ + decimal(pid as nat) + " -ErrorAction SilentlyContinue"@,
                "Expand-Archive -Path "@ + ps_quoted(update) + " -DestinationPath "@ + ps_quoted(
                    dest_dir,
                ) + " -Force"@,
                "Remove-Item -Path "@ + ps_quoted(update) + " -Force"@,
                "Start-Process "@ + ps_quoted(current_exe),
            ],
            "; "@,
        ),
{
    reveal_strlit("; ");
    reveal_strlit("Start-Sleep -Seconds 1");
    reveal_strlit("Wait-Process -Id ");
    reveal_strlit(" -ErrorAction SilentlyContinue");
    reveal_strlit("Start-Sleep -Seconds 1; Wait-Process -Id ");
    reveal_strlit(" -ErrorAction SilentlyContinue; ");
    reveal_strlit(" -Wait");
    reveal_strlit("Start-Process -FilePath ");
    reveal_strlit(" -Wait; Start-Process -FilePath ");
    reveal_strlit(" -Force");
    reveal_strlit("Remove-Item -Path ");
    reveal_strlit(" -Force; Remove-Item -Path ");
    reveal_strlit("Start-Process ");
    reveal_strlit(" -Force; Start-Process ");
    let sleep = "Start-Sleep -Seconds 1"@;
    let wait = "Wait-Process -Id "@ + decimal(pid as nat) + " -ErrorAction SilentlyContinue"@;
    let run = "Start-Process -FilePath "@ + ps_quoted(update) + argument_list(args) + " -Wait"@;
    let relaunch = "Start-Process -FilePath "@ + ps_quoted(current_exe);
    lemma_joined_four(sleep, wait, run, relaunch, "; "@);
    assert(waiting(pid) =~= sleep + "; "@ + wait + "; "@);
    assert(installing(pid, args, update, current_exe) =~= sleep + "; "@ + wait + "; "@ + run
        + "; "@ + relaunch);
    let unpack = "Expand-Archive -Path "@ + ps_quoted(update) + " -DestinationPath "@ + ps_quoted(
        dest_dir,
    ) + " -Force"@;
    let remove = "Remove-Item -Path "@ + ps_quoted(update) + " -Force"@;
    let start = "Start-Process "@ + ps_quoted(current_exe);
    lemma_joined_four(sleep, wait, unpack, remove, "; "@);
    let four = seq![sleep, wait, unpack, remove];
    law_joining_loses_nothing(four, start, "; "@);
    assert(four.push(start) =~= seq![sleep, wait, unpack, remove, start]);
    assert(unpacking(pid, update, dest_dir, current_exe) =~= sleep + "; "@ + wait + "; "@ + unpack
        + "; "@ + remove + "; "@ + start);
}

/// The script for an archive holds the command that unpacks it into the app folder, and the one that
/// removes it.
pub proof fn law_archives_are_unpacked_and_removed(
    pid: u32,
    zip: Seq<char>,
    dest_dir: Seq<char>,
    current_exe: Seq<char>,
)
    ensures
        holds(
            unpacking(pid, zip, dest_dir, current_exe),
            "Expand-Archive -Path "@ + ps_quoted(zip) + " -DestinationPath "@ + ps_quoted(dest_dir)
                + " -Force"@,
        ),
        holds(
            unpacking(pid, zip, dest_dir, current_exe),
            "Remove-Item -Path "@ + ps_quoted(zip) + " -Force"@,
        ),
{
    reveal_strlit("; ");
    reveal_strlit(" -Force");
    reveal_strlit("Remove-Item -Path ");
    reveal_strlit(" -Force; Remove-Item -Path ");
    reveal_strlit("Start-Process ");
    reveal_strlit(" -Force; Start-Process ");
    let unpack = "Expand-Archive -Path "@ + ps_quoted(zip) + " -DestinationPath "@ + ps_quoted(
        dest_dir,
    ) + " -Force"@;
    let remove = "Remove-Item -Path "@ + ps_quoted(zip) + " -Force"@;
    let start = "; Start-Process "@ + ps_quoted(current_exe);
    reveal_strlit("; Start-Process ");
    let script = unpacking(pid, zip, dest_dir, current_exe);
    assert(script =~= waiting(pid) + unpack + ("; "@ + remove + start));
    lemma_holds_middle(waiting(pid), unpack, "; "@ + remove + start);
    assert(script =~= (waiting(pid) + unpack + "; "@) + remove + start);
    lemma_holds_middle(waiting(pid) + unpack + "; "@, remove, start);
}

/// Quoting puts a text between single quotes and doubles each of its own; every other character
/// stays.
pub proof fn law_quoting_goes_by_characters(a: Seq<char>, b: Seq<char>, c: char)
    ensures
        ps_quoted(Seq::empty()) == seq!['\'', '\''],
        ps_quoted(seq!['\'']) == seq!['\'', '\'', '\'', '\''],
        c != '\'' ==> ps_quoted(seq![c]) == seq!['\'', c, '\''],
        ps_quoted(a + b) == ps_quoted(a).drop_last() + ps_quoted(b).drop_first(),
{
    reveal_strlit("'");
    reveal_strlit("''");
    law_replacing_goes_by_characters(a, b, '\'', "''"@, c);
    assert(ps_quoted(Seq::empty()) =~= seq!['\'', '\'']);
    assert(ps_quoted(seq!['\'']) =~= seq!['\'', '\'', '\'', '\'']);
    if c != '\'' {
        assert(ps_quoted(seq![c]) =~= seq!['\'', c, '\'']);
    }
    assert(ps_quoted(a + b) =~= ps_quoted(a).drop_last() + ps_quoted(b).drop_first());
}

} // verus!
