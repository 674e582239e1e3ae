//! Linux: a tarball unpacked over the app folder, or an `AppImage` that is replaced in place.

use vstd::prelude::*;

use super::DownloadDir;
use crate::config::InstallKind;
use crate::error::{labelled, UpdateError, UpdateErrorView};
use crate::text::{
    begins, decimal, ends, is_digit, joined, law_replacing_goes_by_characters, lemma_decimal,
    lemma_joined_four, replace_char, replaced, to_decimal,
};

verus! {

/// What stands in an asset's name between the app's name and the suffix, and its extension.
pub open spec fn name_parts(install_kind: InstallKind) -> (Seq<char>, Seq<char>) {
    match install_kind {
        InstallKind::Installer => (""@, "AppImage"@),
        InstallKind::Portable => (""@, "tar.gz"@),
    }
}

/// Portable is a `.tar.gz` extracted over the app folder, the same shape as the Windows zip.
/// The installer is a standalone `.AppImage` that replaces itself in place.
pub fn asset_name_parts(install_kind: InstallKind) -> (parts: (&'static str, &'static str))
    ensures
        (parts.0@, parts.1@) == name_parts(install_kind),
{
    match install_kind {
        InstallKind::Installer => ("", "AppImage"),
        InstallKind::Portable => ("", "tar.gz"),
    }
}

/// The tar.gz lands next to the current executable so the extraction script can overwrite it in
/// place. The `AppImage` lands in a per-user cache directory rather than the shared system temp
/// directory, since a predictable path under `/tmp` could be squatted by another local user and
/// break the update for everyone else; it only replaces the running `AppImage` once its signature
/// is verified.
///
/// For [`InstallKind::Installer`] this also checks that the app is actually running from an
/// `AppImage`, so a misconfigured build fails before spending a download on an update it can
/// never apply, rather than after. `in_appimage` says whether it is.
pub fn download_dir(install_kind: InstallKind, in_appimage: bool) -> (dir: Result<
    DownloadDir,
    UpdateError,
>)
    ensures
        dir is Err <==> install_kind == InstallKind::Installer && !in_appimage,
        dir matches Err(e) ==> e@ == UpdateErrorView::Io(
            "Not running from an AppImage; cannot self-update."@,
        ),
        dir matches Ok(d) ==> d == (match install_kind {
            InstallKind::Installer => DownloadDir::AppCache,
            InstallKind::Portable => DownloadDir::BesideExe,
        }),
{
    match install_kind {
        InstallKind::Installer => if in_appimage {
            Ok(DownloadDir::AppCache)
        } else {
            Err(UpdateError::Io(String::from("Not running from an AppImage; cannot self-update.")))
        },
        InstallKind::Portable => Ok(DownloadDir::BesideExe),
    }
}

/// Where the per-user cache is kept.
#[derive(Debug, PartialEq, Eq)]
pub enum CacheBase<P> {
    /// In this directory.
    Cache(P),
    /// In the `.cache` directory of this home directory.
    Home(P),
}

/// Chooses the base of the per-user cache directory: the value of `XDG_CACHE_HOME`, or else
/// `.cache` under the value of `HOME`.
pub fn cache_base<P>(xdg_cache_home: Option<P>, home: Option<P>) -> (base: Result<
    CacheBase<P>,
    UpdateError,
>)
    ensures
        base is Err <==> xdg_cache_home is None && home is None,
        base matches Err(e) ==> e@ == UpdateErrorView::Io(
            "Could not determine a cache directory: neither XDG_CACHE_HOME nor HOME is set"@,
        ),
        xdg_cache_home matches Some(dir) ==> base == Ok::<_, UpdateError>(CacheBase::Cache(dir)),
        xdg_cache_home is None ==> (home matches Some(dir) ==> base == Ok::<_, UpdateError>(
            CacheBase::Home(dir),
        )),
{
    match (xdg_cache_home, home) {
        (Some(dir), _) => Ok(CacheBase::Cache(dir)),
        (None, Some(dir)) => Ok(CacheBase::Home(dir)),
        (None, None) => Err(
            UpdateError::Io(
                String::from(
                    "Could not determine a cache directory: neither XDG_CACHE_HOME nor HOME is set",
                ),
            ),
        ),
    }
}

/// Makes sense of an attempt to create the cache directory.
pub fn cache_created(created: Result<(), String>) -> (result: Result<(), UpdateError>)
    ensures
        created is Ok ==> result is Ok,
        created matches Err(m) ==> (result matches Err(e) && e@ == UpdateErrorView::Io(
            "Failed to create cache directory: "@ + m@,
        )),
{
    match created {
        Ok(()) => Ok(()),
        Err(m) => Err(UpdateError::Io(labelled("Failed to create cache directory: ", m.as_str()))),
    }
}

/// `s` as one word of a shell command.
pub open spec fn sh_quoted(s: Seq<char>) -> Seq<char> {
    "'"@ + replaced(s, '\'', "'\\''"@) + "'"@
}

/// Quotes a text so that a shell reads it as one word.
pub fn sh_quote(s: &str) -> (word: String)
    ensures
        word@ == sh_quoted(s@),
{
    String::from("'").concat(replace_char(s, '\'', "'\\''").as_str()).concat("'")
}

/// The commands that wait for a process to exit.
pub open spec fn waiting(pid: u32) -> Seq<char> {
    "sleep 1; while kill -0 "@ + decimal(pid as nat) + " 2>/dev/null; do sleep 0.2; done"@
}

/// Writes the commands that wait for a process to exit.
pub fn wait_clause(pid: u32) -> (clause: String)
    ensures
        clause@ == waiting(pid),
{
    String::from("sleep 1; while kill -0 ").concat(to_decimal(pid as u128).as_str()).concat(
        " 2>/dev/null; do sleep 0.2; done",
    )
}

/// The commands that replace an `AppImage` by a new one and start it.
pub open spec fn installing(pid: u32, new_appimage: Seq<char>, current_appimage: Seq<char>) -> Seq<
    char,
> {
    waiting(pid) + "; chmod +x "@ + sh_quoted(new_appimage) + "; mv -f "@ + sh_quoted(new_appimage)
        + " "@ + sh_quoted(current_appimage) + "; nohup "@ + sh_quoted(current_appimage)
        + " >/dev/null 2>&1 &"@
}

/// Writes the script that waits for the app to exit, puts the new `AppImage` in its place and
/// starts it.
///
/// `;` rather than `&&` stands between the steps, like in the Windows scripts: if `chmod` or `mv`
/// fails (for example the `AppImage` lives somewhere the user can't write), the old one is still
/// there under `current_appimage` and still gets relaunched, instead of leaving the app closed
/// with no indication why.
pub fn installer_script(pid: u32, new_appimage: &str, current_appimage: &str) -> (script: String)
    ensures
        script@ == installing(pid, new_appimage@, current_appimage@),
{
    let new_q = sh_quote(new_appimage);
    let cur_q = sh_quote(current_appimage);
    wait_clause(pid).concat("; chmod +x ").concat(new_q.as_str()).concat("; mv -f ").concat(
        new_q.as_str(),
    ).concat(" ").concat(cur_q.as_str()).concat("; nohup ").concat(cur_q.as_str()).concat(
        " >/dev/null 2>&1 &",
    )
}

/// The commands that unpack a tarball over the app folder and start the app.
pub open spec fn unpacking(
    pid: u32,
    targz: Seq<char>,
    dest_dir: Seq<char>,
    current_exe: Seq<char>,
) -> Seq<char> {
    waiting(pid) + "; tar -xzf "@ + sh_quoted(targz) + " -C "@ + sh_quoted(dest_dir)
        + "; rm -f "@ + sh_quoted(targz) + "; nohup "@ + sh_quoted(current_exe)
        + " >/dev/null 2>&1 &"@
}

/// Writes the script that waits for the app to exit, unpacks the tarball over its folder, removes
/// the tarball and starts the app.
///
/// As in [`installer_script`], `;` makes sure that a failed extraction still relaunches the
/// existing exe rather than leaving the app closed.
pub fn targz_update_script(pid: u32, targz: &str, dest_dir: &str, current_exe: &str) -> (script:
    String)
    ensures
        script@ == unpacking(pid, targz@, dest_dir@, current_exe@),
{
    let targz_q = sh_quote(targz);
    let dest_q = sh_quote(dest_dir);
    let exe_q = sh_quote(current_exe);
    wait_clause(pid).concat("; tar -xzf ").concat(targz_q.as_str()).concat(" -C ").concat(
        dest_q.as_str(),
    ).concat("; rm -f ").concat(targz_q.as_str()).concat("; nohup ").concat(exe_q.as_str()).concat(
        " >/dev/null 2>&1 &",
    )
}

/// The scripts wait for the app to exit before they do anything else, and start it in the end.
pub proof fn law_scripts_relaunch_the_app(
    pid: u32,
    update: Seq<char>,
    dest_dir: Seq<char>,
    current: Seq<char>,
)
    ensures
        ({
            let relaunch = "; nohup "@ + sh_quoted(current) + " >/dev/null 2>&1 &"@;
            &&& begins(installing(pid, update, current), waiting(pid))
            &&& ends(installing(pid, update, current), relaunch)
            &&& begins(unpacking(pid, update, dest_dir, current), waiting(pid))
            &&& ends(unpacking(pid, update, dest_dir, current), relaunch)
        }),
{
    let relaunch = "; nohup "@ + sh_quoted(current) + " >/dev/null 2>&1 &"@;
    let replace = installing(pid, update, current);
    assert(replace.subrange(0, waiting(pid).len() as int) =~= waiting(pid));
    assert(replace.subrange(replace.len() - relaunch.len(), replace.len() as int) =~= relaunch);
    let unpack = unpacking(pid, update, dest_dir, current);
    assert(unpack.subrange(0, waiting(pid).len() as int) =~= waiting(pid));
    assert(unpack.subrange(unpack.len() - relaunch.len(), unpack.len() as int) =~= relaunch);
}

/// What a POSIX shell makes of the rest of a word that is written with single quotes and
/// backslashes alone; `quoted` says whether the rest begins within quotes. Between quotes every
/// character stands for itself; outside, a backslash makes the next one do so. Nothing, when a
/// quote is left open or the word holds anything else.
pub open spec fn sh_read(s: Seq<char>, quoted: bool) -> Option<Seq<char>>
    decreases s.len(),
{
    if s.len() == 0 {
        if quoted {
            None
        } else {
            Some(Seq::empty())
        }
    } else if s[0] == '\'' {
        sh_read(s.skip(1), !quoted)
    } else if quoted {
        match sh_read(s.skip(1), true) {
            Some(rest) => Some(seq![s[0]] + rest),
            None => None,
        }
    } else if s[0] == '\\' && s.len() >= 2 {
        match sh_read(s.skip(2), false) {
            Some(rest) => Some(seq![s[1]] + rest),
            None => None,
        }
    } else {
        None
    }
}

/// A quote that is escaped within quotes reads as one quote.
proof fn lemma_sh_escape(tail: Seq<char>)
    ensures
        sh_read("'\\''"@ + tail, true) == (match sh_read(tail, true) {
            Some(rest) => Some(seq!['\''] + rest),
            None => None,
        }),
{
    reveal_strlit("'\\''");
    let s = "'\\''"@ + tail;
    let s1 = s.skip(1);
    let s3 = s1.skip(2);
    assert(s[0] == '\'');
    assert(s1[0] == '\\' && s1[1] == '\'');
    assert(s3[0] == '\'');
    assert(s3.skip(1) =~= tail);
    assert(sh_read(s, true) == sh_read(s1, false));
    assert(sh_read(s3, false) == sh_read(tail, true));
}

proof fn lemma_sh_read(s: Seq<char>, tail: Seq<char>)
    ensures
        sh_read(replaced(s, '\'', "'\\''"@) + tail, true) == (match sh_read(tail, true) {
            Some(rest) => Some(s + rest),
            None => None,
        }),
    decreases s.len(),
{
    let done = replaced(s, '\'', "'\\''"@);
    if s.len() == 0 {
        assert(done + tail =~= tail);
        if let Some(rest) = sh_read(tail, true) {
            assert(s + rest =~= rest);
        }
    } else {
        let init = s.drop_last();
        let c = s.last();
        let head = replaced(init, '\'', "'\\''"@);
        let piece = if c == '\'' {
            "'\\''"@
        } else {
            seq![c]
        };
        assert(done + tail =~= head + (piece + tail));
        lemma_sh_read(init, piece + tail);
        if c == '\'' {
            lemma_sh_escape(tail);
        } else {
            assert((piece + tail).skip(1) =~= tail);
            assert((piece + tail)[0] == c);
        }
        if let Some(rest) = sh_read(tail, true) {
            assert(init + (seq![c] + rest) =~= s + rest);
        }
    }
}

/// A shell reads a quoted text as one word, and that word is the text.
pub proof fn law_shell_reads_back(s: Seq<char>)
    ensures
        sh_read(sh_quoted(s), false) == Some(s),
{
    reveal_strlit("'");
    let body = replaced(s, '\'', "'\\''"@) + "'"@;
    assert(sh_quoted(s) =~= "'"@ + body);
    assert(sh_quoted(s).skip(1) =~= body);
    assert("'"@.skip(1) =~= Seq::empty());
    assert(sh_read("'"@.skip(1), false) == Some(Seq::<char>::empty()));
    lemma_sh_read(s, "'"@);
    assert(s + Seq::<char>::empty() =~= s);
}

/// Whether a text holds no two ampersands in a row.
pub open spec fn no_and_list(s: Seq<char>) -> bool {
    forall|i: int| 0 <= i < s.len() - 1 ==> !(#[trigger] s[i] == '&' && s[i + 1] == '&')
}

proof fn lemma_no_and_concat(a: Seq<char>, b: Seq<char>)
    requires
        no_and_list(a),
        no_and_list(b),
        a.len() == 0 || a.last() != '&' || b.len() == 0 || b[0] != '&',
    ensures
        no_and_list(a + b),
{
    let s = a + b;
    assert forall|i: int| 0 <= i < s.len() - 1 implies !(#[trigger] s[i] == '&' && s[i + 1]
        == '&') by {
        if i < a.len() - 1 {
            assert(s[i] == a[i] && s[i + 1] == a[i + 1]);
        } else if i >= a.len() {
            assert(s[i] == b[i - a.len()] && s[i + 1] == b[i + 1 - a.len()]);
        }
    }
}

proof fn lemma_no_and_quoted(s: Seq<char>)
    requires
        no_and_list(s),
    ensures
        no_and_list(sh_quoted(s)),
        sh_quoted(s).len() > 0,
        sh_quoted(s)[0] == '\'',
        sh_quoted(s).last() == '\'',
{
    reveal_strlit("'");
    lemma_no_and_replaced(s);
    let body = replaced(s, '\'', "'\\''"@);
    lemma_no_and_concat("'"@, body);
    lemma_no_and_concat("'"@ + body, "'"@);
}

proof fn lemma_no_and_replaced(s: Seq<char>)
    requires
        no_and_list(s),
    ensures
        no_and_list(replaced(s, '\'', "'\\''"@)),
        ({
            let out = replaced(s, '\'', "'\\''"@);
            out.len() > 0 && out.last() == '&' ==> s.len() > 0 && s.last() == '&'
        }),
    decreases s.len(),
{
    reveal_strlit("'\\''");
    if s.len() > 0 {
        let init = s.drop_last();
        assert forall|i: int| 0 <= i < init.len() - 1 implies !(#[trigger] init[i] == '&'
            && init[i + 1] == '&') by {
            assert(s[i] == init[i] && s[i + 1] == init[i + 1]);
        }
        lemma_no_and_replaced(init);
        let head = replaced(init, '\'', "'\\''"@);
        if s.last() == '\'' {
            lemma_no_and_concat(head, "'\\''"@);
        } else {
            if init.len() > 0 {
                assert(!(s[s.len() - 2] == '&' && s[s.len() - 1] == '&'));
                assert(init.last() == s[s.len() - 2]);
            }
            lemma_no_and_concat(head, seq![s.last()]);
            assert(head.push(s.last()) =~= head + seq![s.last()]);
        }
    }
}

/// Putting a quoted text and a text that does not begin with an ampersand behind a script keeps it
/// free of `&&`.
proof fn lemma_no_and_step(script: Seq<char>, word: Seq<char>, text: Seq<char>)
    requires
        no_and_list(script),
        no_and_list(word),
        no_and_list(text),
        text.len() > 0,
        text[0] != '&',
    ensures
        no_and_list(script + sh_quoted(word) + text),
        (script + sh_quoted(word) + text).len() > 0,
{
    lemma_no_and_quoted(word);
    lemma_no_and_concat(script, sh_quoted(word));
    lemma_no_and_concat(script + sh_quoted(word), text);
}

proof fn lemma_no_and_waiting(pid: u32)
    ensures
        no_and_list(waiting(pid)),
{
    reveal_strlit("sleep 1; while kill -0 ");
    reveal_strlit(" 2>/dev/null; do sleep 0.2; done");
    lemma_decimal(pid as nat);
    let digits = decimal(pid as nat);
    assert forall|i: int| 0 <= i < digits.len() - 1 implies !(#[trigger] digits[i] == '&'
        && digits[i + 1] == '&') by {
        assert(is_digit(digits[i]));
    }
    assert(is_digit(digits[0]));
    let begin = "sleep 1; while kill -0 "@;
    lemma_no_and_concat(begin, digits);
    lemma_no_and_concat(begin + digits, " 2>/dev/null; do sleep 0.2; done"@);
}

/// The steps of the scripts never hang on one another: `&&` stands in a script only where a path
/// holds it.
pub proof fn law_steps_are_independent(pid: u32, a: Seq<char>, b: Seq<char>, c: Seq<char>)
    requires
        no_and_list(a),
        no_and_list(b),
        no_and_list(c),
    ensures
        no_and_list(installing(pid, a, b)),
        no_and_list(unpacking(pid, a, b, c)),
{
    reveal_strlit("; chmod +x ");
    reveal_strlit("; mv -f ");
    reveal_strlit(" ");
    reveal_strlit("; nohup ");
    reveal_strlit(" >/dev/null 2>&1 &");
    reveal_strlit("; tar -xzf ");
    reveal_strlit(" -C ");
    reveal_strlit("; rm -f ");
    lemma_no_and_waiting(pid);
    let w = waiting(pid);
    lemma_no_and_concat(w, "; chmod +x "@);
    let i0 = w + "; chmod +x "@;
    let i1 = i0 + sh_quoted(a) + "; mv -f "@;
    let i2 = i1 + sh_quoted(a) + " "@;
    let i3 = i2 + sh_quoted(b) + "; nohup "@;
    lemma_no_and_step(i0, a, "; mv -f "@);
    lemma_no_and_step(i1, a, " "@);
    lemma_no_and_step(i2, b, "; nohup "@);
    lemma_no_and_step(i3, b, " >/dev/null 2>&1 &"@);
    lemma_no_and_concat(w, "; tar -xzf "@);
    let u0 = w + "; tar -xzf "@;
    let u1 = u0 + sh_quoted(a) + " -C "@;
    let u2 = u1 + sh_quoted(b) + "; rm -f "@;
    let u3 = u2 + sh_quoted(a) + "; nohup "@;
    lemma_no_and_step(u0, a, " -C "@);
    lemma_no_and_step(u1, b, "; rm -f "@);
    lemma_no_and_step(u2, a, "; nohup "@);
    lemma_no_and_step(u3, c, " >/dev/null 2>&1 &"@);
}

/// The steps of the scripts, one after the other: wait, make the new `AppImage` executable, move it
/// over the current one and start that; or wait, unpack the tarball into the app folder, remove it
/// and start the app. Waiting is to look for the process until it is gone.
pub proof fn law_scripts_take_these_steps(
    pid: u32,
    update: Seq<char>,
    dest_dir: Seq<char>,
    current: Seq<char>,
)
    ensures
        waiting(pid) == joined(
            seq![
                "sleep 1"@,
                "while kill -0 "@ + decimal(pid as nat) + " 2>/dev/null"@,
                "do sleep 0.2"@,
                "done"@,
            ],
            "; "@,
        ),
        installing(pid, update, current) == joined(
            seq![
                waiting(pid),
                "chmod +x "@ + sh_quoted(update),
                "mv -f "@ + sh_quoted(update) + " "@ + sh_quoted(current),
                "nohup "@ + sh_quoted(current) + " >/dev/null 2>&1 &"@,
            ],
            "; "@,
        ),
        unpacking(pid, update, dest_dir, current) == joined(
            seq![
                waiting(pid),
                "tar -xzf "@ + sh_quoted(update) + " -C "@ + sh_quoted(dest_dir),
                "rm -f "@ + sh_quoted(update),
                "nohup "@ + sh_quoted(current) + " >/dev/null 2>&1 &"@,
            ],
            "; "@,
        ),
{
    reveal_strlit("; ");
    reveal_strlit("sleep 1");
    reveal_strlit("while kill -0 ");
    reveal_strlit(" 2>/dev/null");
    reveal_strlit("do sleep 0.2");
    reveal_strlit("done");
    reveal_strlit("sleep 1; while kill -0 ");
    reveal_strlit(" 2>/dev/null; do sleep 0.2; done");
    reveal_strlit("chmod +x ");
    reveal_strlit("; chmod +x ");
    reveal_strlit("mv -f ");
    reveal_strlit("; mv -f ");
    reveal_strlit("nohup ");
    reveal_strlit("; nohup ");
    reveal_strlit("tar -xzf ");
    reveal_strlit("; tar -xzf ");
    reveal_strlit("rm -f ");
    reveal_strlit("; rm -f ");
    let wait = "while kill -0 "@ + decimal(pid as nat) + " 2>/dev/null"@;
    lemma_joined_four("sleep 1"@, wait, "do sleep 0.2"@, "done"@, "; "@);
    assert(waiting(pid) =~= "sleep 1"@ + "; "@ + wait + "; "@ + "do sleep 0.2"@ + "; "@ + "done"@);
    let mark = "chmod +x "@ + sh_quoted(update);
    let replace = "mv -f "@ + sh_quoted(update) + " "@ + sh_quoted(current);
    let launch = "nohup "@ + sh_quoted(current) + " >/dev/null 2>&1 &"@;
    lemma_joined_four(waiting(pid), mark, replace, launch, "; "@);
    assert(installing(pid, update, current) =~= waiting(pid) + "; "@ + mark + "; "@ + replace
        + "; "@ + launch);
    let unpack = "tar -xzf "@ + sh_quoted(update) + " -C "@ + sh_quoted(dest_dir);
    let remove = "rm -f "@ + sh_quoted(update);
    lemma_joined_four(waiting(pid), unpack, remove, launch, "; "@);
    assert(unpacking(pid, update, dest_dir, current) =~= waiting(pid) + "; "@ + unpack + "; "@
        + remove + "; "@ + launch);
}

/// Quoting puts a text between single quotes and writes each of its own as a quote that ends the
/// quoted stretch, an escaped quote, and a quote that goes on; every other character stays.
pub proof fn law_quoting_goes_by_characters(a: Seq<char>, b: Seq<char>, c: char)
    ensures
        sh_quoted(Seq::empty()) == seq!['\'', '\''],
        sh_quoted(seq!['\'']) == seq!['\'', '\'', '\\', '\'', '\'', '\''],
        c != '\'' ==> sh_quoted(seq![c]) == seq!['\'', c, '\''],
        sh_quoted(a + b) == sh_quoted(a).drop_last() + sh_quoted(b).drop_first(),
{
    reveal_strlit("'");
    reveal_strlit("'\\''");
    let with = "'\\''"@;
    law_replacing_goes_by_characters(a, b, '\'', with, c);
    assert(sh_quoted(Seq::empty()) =~= seq!['\'', '\'']);
    assert(sh_quoted(seq!['\'']) =~= seq!['\'', '\'', '\\', '\'', '\'', '\'']);
    if c != '\'' {
        assert(sh_quoted(seq![c]) =~= seq!['\'', c, '\'']);
    }
    assert(sh_quoted(a + b) =~= sh_quoted(a).drop_last() + sh_quoted(b).drop_first());
}

} // verus!
