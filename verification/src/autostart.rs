//! The autostart artifacts the application maintains in the Windows
//! startup folder: the per-distribution launcher script whose lines are
//! added and removed as distributions opt in and out, and the dashboard's
//! own fallback launcher script. Reading and writing the files, and the
//! registry path, are I/O and live outside the crate; the paths and the
//! whole line bookkeeping are computed and verified here.

use vstd::prelude::*;

use crate::text::{
    contains_str, push_string, spec_contains, spec_join, spec_lines, spec_trim, split_lines,
    str_eq, string_push, trim_str, join_strings,
};

verus! {

broadcast use vstd::seq::group_seq_axioms;

/// File name of the per-distribution launcher script.
pub open spec fn vbs_file_name() -> Seq<char> {
    "wsl-dashboard.vbs"@
}

/// File name of the dashboard's own fallback launcher script.
pub open spec fn dashboard_vbs_file_name() -> Seq<char> {
    "dashboard-autostart.vbs"@
}

/// Full path of the per-distribution launcher script inside the given
/// startup directory.
pub fn get_vbs_path(startup_dir: &str) -> (r: String)
    ensures
        r@ == startup_dir@ + "\\"@ + vbs_file_name(),
{
    let mut s = String::from_str(startup_dir);
    s.append("\\");
    s.append("wsl-dashboard.vbs");
    s
}

/// Full path of the dashboard's own fallback launcher script inside the
/// given startup directory.
pub fn get_dashboard_vbs_path(startup_dir: &str) -> (r: String)
    ensures
        r@ == startup_dir@ + "\\"@ + dashboard_vbs_file_name(),
{
    let mut s = String::from_str(startup_dir);
    s.append("\\");
    s.append("dashboard-autostart.vbs");
    s
}

/// The script line that starts one distribution's init service at logon.
pub open spec fn autostart_line(name: Seq<char>) -> Seq<char> {
    "ws.run \"wsl -d "@ + name + " -u root /etc/init.wsl-dashboard start\", vbhide"@
}

/// The script's fixed first line.
pub open spec fn vbs_header() -> Seq<char> {
    "Set ws = WScript.CreateObject(\"WScript.Shell\")"@
}

/// Renders the script line for one distribution.
pub fn autostart_line_string(name: &str) -> (r: String)
    ensures
        r@ == autostart_line(name@),
{
    let mut s = String::from_str("ws.run \"wsl -d ");
    s.append(name);
    s.append(" -u root /etc/init.wsl-dashboard start\", vbhide");
    s
}

/// The script lines kept from an existing file: each line trimmed, blank
/// lines dropped.
pub open spec fn cleaned_lines(lines: Seq<Seq<char>>) -> Seq<Seq<char>>
    decreases lines.len(),
{
    if lines.len() == 0 {
        seq![]
    } else {
        let t = spec_trim(lines[0]);
        if t.len() == 0 {
            cleaned_lines(lines.drop_first())
        } else {
            seq![t] + cleaned_lines(lines.drop_first())
        }
    }
}

/// Whether some line already creates the script host object.
pub open spec fn has_header(lines: Seq<Seq<char>>) -> bool
    decreases lines.len(),
{
    if lines.len() == 0 {
        false
    } else {
        spec_contains(lines[0], "WScript.CreateObject"@) || has_header(lines.drop_first())
    }
}

/// Whether some line equals the given one.
pub open spec fn has_line(lines: Seq<Seq<char>>, line: Seq<char>) -> bool {
    exists|i: int| 0 <= i < lines.len() && lines[i] == line
}

/// The lines with every occurrence of the given one removed.
pub open spec fn without_line(lines: Seq<Seq<char>>, line: Seq<char>) -> Seq<Seq<char>>
    decreases lines.len(),
{
    if lines.len() == 0 {
        seq![]
    } else if lines[0] == line {
        without_line(lines.drop_first(), line)
    } else {
        seq![lines[0]] + without_line(lines.drop_first(), line)
    }
}

/// The lines of the updated script: the existing file's non-blank trimmed
/// lines (or just the header when there is no file), the header inserted
/// in front when missing, and the distribution's line appended when
/// enabling (unless already present) or removed everywhere when disabling.
pub open spec fn spec_updated_lines(
    existing: Option<Seq<char>>,
    name: Seq<char>,
    enable: bool,
) -> Seq<Seq<char>> {
    let base = match existing {
        Some(content) => cleaned_lines(spec_lines(content)),
        None => seq![vbs_header()],
    };
    let with_hdr = if has_header(base) {
        base
    } else {
        seq![vbs_header()] + base
    };
    if enable {
        if has_line(with_hdr, autostart_line(name)) {
            with_hdr
        } else {
            with_hdr.push(autostart_line(name))
        }
    } else {
        without_line(with_hdr, autostart_line(name))
    }
}

/// The updated script text: the updated lines joined by CRLF.
pub open spec fn spec_update_autostart(
    existing: Option<Seq<char>>,
    name: Seq<char>,
    enable: bool,
) -> Seq<char> {
    spec_join(spec_updated_lines(existing, name, enable), "\r\n"@)
}

/// The existing file's non-blank trimmed lines.
fn clean_existing(content: &str) -> (r: Vec<String>)
    ensures
        r.deep_view() == cleaned_lines(spec_lines(content@)),
{
    let lines = split_lines(content);
    let n = lines.len();
    let mut out: Vec<String> = Vec::new();
    let mut i: usize = 0;
    let ghost rows = lines.deep_view();
    proof {
        assert(rows.skip(0) =~= rows);
        assert(out.deep_view() + cleaned_lines(rows) =~= cleaned_lines(rows));
    }
    while i < n
        invariant
            i <= n,
            n == lines@.len(),
            rows == lines.deep_view(),
            rows.len() == n,
            out.deep_view() + cleaned_lines(rows.skip(i as int)) == cleaned_lines(rows),
        decreases n - i,
    {
        let ghost dv = out.deep_view();
        proof {
            assert(rows.skip(i as int)[0] == rows[i as int]);
            assert(rows[i as int] == lines@[i as int]@);
            assert(rows.skip(i as int).drop_first() =~= rows.skip(i as int + 1));
        }
        let t = trim_str(lines[i].as_str());
        if t.unicode_len() > 0 {
            push_string(&mut out, t);
        }
        i = i + 1;
    }
    proof {
        assert(rows.skip(n as int) =~= Seq::<Seq<char>>::empty());
        assert(out.deep_view() + cleaned_lines(rows.skip(n as int)) =~= out.deep_view());
    }
    out
}

/// Whether some line already creates the script host object.
fn lines_have_header(lines: &Vec<String>) -> (r: bool)
    ensures
        r == has_header(lines.deep_view()),
{
    let n = lines.len();
    let mut i: usize = 0;
    let ghost dv = lines.deep_view();
    proof {
        assert(dv.skip(0) =~= dv);
    }
    while i < n
        invariant
            i <= n,
            n == lines@.len(),
            dv == lines.deep_view(),
            dv.len() == n,
            has_header(dv) == has_header(dv.skip(i as int)),
        decreases n - i,
    {
        proof {
            assert(dv.skip(i as int)[0] == dv[i as int]);
            assert(dv[i as int] == lines@[i as int]@);
            assert(dv.skip(i as int).drop_first() =~= dv.skip(i as int + 1));
        }
        if contains_str(lines[i].as_str(), "WScript.CreateObject") {
            return true;
        }
        i = i + 1;
    }
    false
}

/// Whether some line equals the given one.
fn lines_have_line(lines: &Vec<String>, line: &str) -> (r: bool)
    ensures
        r == has_line(lines.deep_view(), line@),
{
    let n = lines.len();
    let mut i: usize = 0;
    while i < n
        invariant
            i <= n,
            n == lines@.len(),
            lines.deep_view().len() == n,
            forall|j: int| 0 <= j < i ==> lines.deep_view()[j] != line@,
        decreases n - i,
    {
        proof {
            assert(lines.deep_view()[i as int] == lines@[i as int]@);
        }
        if str_eq(lines[i].as_str(), line) {
            return true;
        }
        i = i + 1;
    }
    false
}

/// The lines with every occurrence of the given one removed.
fn lines_without_line(lines: Vec<String>, line: &str) -> (r: Vec<String>)
    ensures
        r.deep_view() == without_line(lines.deep_view(), line@),
{
    let n = lines.len();
    let mut out: Vec<String> = Vec::new();
    let mut i: usize = 0;
    let ghost dv = lines.deep_view();
    proof {
        assert(dv.skip(0) =~= dv);
        assert(out.deep_view() + without_line(dv, line@) =~= without_line(dv, line@));
    }
    while i < n
        invariant
            i <= n,
            n == lines@.len(),
            dv == lines.deep_view(),
            dv.len() == n,
            out.deep_view() + without_line(dv.skip(i as int), line@) == without_line(dv, line@),
        decreases n - i,
    {
        let ghost odv = out.deep_view();
        proof {
            assert(dv.skip(i as int)[0] == dv[i as int]);
            assert(dv[i as int] == lines@[i as int]@);
            assert(dv.skip(i as int).drop_first() =~= dv.skip(i as int + 1));
        }
        if !str_eq(lines[i].as_str(), line) {
            let kept = lines[i].clone();
            out.push(kept);
            proof {
                assert(out.deep_view() =~= odv.push(dv[i as int]));
                assert(odv.push(dv[i as int]) =~= odv + seq![dv[i as int]]);
            }
        }
        i = i + 1;
    }
    proof {
        assert(dv.skip(n as int) =~= Seq::<Seq<char>>::empty());
        assert(out.deep_view() + without_line(dv.skip(n as int), line@) =~= out.deep_view());
    }
    out
}

/// Computes the updated launcher script: keeps the existing file's
/// non-blank trimmed lines (or starts a fresh script), makes sure the
/// header comes first, and adds or removes the distribution's autostart
/// line. The caller writes the result back to the file.
pub fn update_autostart_content(existing: Option<&str>, name: &str, enable: bool) -> (r: String)
    ensures
        r@ == spec_update_autostart(
            match existing {
                Some(s) => Some(s@),
                None => None,
            },
            name@,
            enable,
        ),
{
    let mut base: Vec<String> = match existing {
        Some(content) => clean_existing(content),
        None => {
            let mut v: Vec<String> = Vec::new();
            push_string(&mut v, "Set ws = WScript.CreateObject(\"WScript.Shell\")");
            proof {
                assert(v.deep_view() =~= seq![vbs_header()]);
            }
            v
        },
    };
    if !lines_have_header(&base) {
        let mut with_hdr: Vec<String> = Vec::new();
        push_string(&mut with_hdr, "Set ws = WScript.CreateObject(\"WScript.Shell\")");
        let ghost hdr_dv = with_hdr.deep_view();
        let ghost base_dv = base.deep_view();
        let blen = base.len();
        let mut k: usize = 0;
        while k < blen
            invariant
                k <= blen,
                blen == base@.len(),
                base_dv == base.deep_view(),
                base_dv.len() == blen,
                hdr_dv == seq![vbs_header()],
                with_hdr.deep_view() == hdr_dv + base_dv.take(k as int),
            decreases blen - k,
        {
            let ghost wdv = with_hdr.deep_view();
            proof {
                assert(base_dv[k as int] == base@[k as int]@);
            }
            let item = base[k].clone();
            with_hdr.push(item);
            proof {
                assert(with_hdr.deep_view() =~= wdv.push(base_dv[k as int]));
                assert(wdv.push(base_dv[k as int]) =~= hdr_dv + base_dv.take(k as int + 1));
            }
            k = k + 1;
        }
        proof {
            assert(base_dv.take(blen as int) =~= base_dv);
        }
        base = with_hdr;
    }
    let line = autostart_line_string(name);
    if enable {
        if !lines_have_line(&base, line.as_str()) {
            let ghost bdv = base.deep_view();
            base.push(line);
            proof {
                assert(base.deep_view() =~= bdv.push(autostart_line(name@)));
            }
        }
    } else {
        base = lines_without_line(base, line.as_str());
    }
    join_strings(&base, "\r\n")
}

/// Whether the launcher script's content already autostarts the named
/// distribution: some line, trimmed, equals the distribution's line.
pub open spec fn spec_has_autostart_line(content: Seq<char>, name: Seq<char>) -> bool {
    exists|i: int|
        0 <= i < spec_lines(content).len() && spec_trim(#[trigger] spec_lines(content)[i])
            == autostart_line(name)
}

/// Whether the launcher script's content autostarts the named
/// distribution.
pub fn has_autostart_line(content: &str, name: &str) -> (r: bool)
    ensures
        r == spec_has_autostart_line(content@, name@),
{
    let lines = split_lines(content);
    let line = autostart_line_string(name);
    let n = lines.len();
    let mut i: usize = 0;
    while i < n
        invariant
            i <= n,
            n == lines@.len(),
            lines.deep_view() == spec_lines(content@),
            lines.deep_view().len() == n,
            line@ == autostart_line(name@),
            forall|j: int|
                0 <= j < i ==> spec_trim(#[trigger] lines.deep_view()[j]) != autostart_line(
                    name@,
                ),
        decreases n - i,
    {
        proof {
            assert(lines.deep_view()[i as int] == lines@[i as int]@);
        }
        let t = trim_str(lines[i].as_str());
        if str_eq(t, line.as_str()) {
            return true;
        }
        i = i + 1;
    }
    false
}

/// The logon command for the dashboard itself: the executable, quoted, with
/// the silent switch when it should start minimized.
pub open spec fn spec_dashboard_command(exe_path: Seq<char>, minimized: bool) -> Seq<char> {
    if minimized {
        "\""@ + exe_path + "\" /silent"@
    } else {
        "\""@ + exe_path + "\""@
    }
}

/// Renders the dashboard's logon command.
pub fn dashboard_autostart_command(exe_path: &str, minimized: bool) -> (r: String)
    ensures
        r@ == spec_dashboard_command(exe_path@, minimized),
{
    let mut s = String::from_str("\"");
    s.append(exe_path);
    if minimized {
        s.append("\" /silent");
    } else {
        s.append("\"");
    }
    s
}

/// A text with every double quote doubled, as the script language escapes
/// quotes.
pub open spec fn vbs_escaped(s: Seq<char>) -> Seq<char>
    decreases s.len(),
{
    if s.len() == 0 {
        seq![]
    } else if s[0] == '"' {
        seq!['"', '"'] + vbs_escaped(s.drop_first())
    } else {
        seq![s[0]] + vbs_escaped(s.drop_first())
    }
}

/// The dashboard's fallback launcher script: the header, then a hidden run
/// of the (quote-escaped) command.
pub open spec fn spec_dashboard_vbs_content(command: Seq<char>) -> Seq<char> {
    vbs_header() + "\r\nws.run \""@ + vbs_escaped(command) + "\", 0\r\n"@
}

/// Renders the dashboard's fallback launcher script for the given command.
pub fn dashboard_vbs_content(command: &str) -> (r: String)
    ensures
        r@ == spec_dashboard_vbs_content(command@),
{
    let mut s = String::from_str("Set ws = WScript.CreateObject(\"WScript.Shell\")");
    s.append("\r\nws.run \"");
    let len = command.unicode_len();
    let mut i: usize = 0;
    let ghost head = s@;
    while i < len
        invariant
            i <= len,
            len == command@.len(),
            s@ == head + vbs_escaped(command@.take(i as int)),
        decreases len - i,
    {
        let c = command.get_char(i);
        if c == '"' {
            string_push(&mut s, '"');
            string_push(&mut s, '"');
        } else {
            string_push(&mut s, c);
        }
        proof {
            lemma_vbs_escaped_push(command@.take(i as int), command@[i as int]);
            assert(command@.take(i as int).push(command@[i as int]) =~= command@.take(
                i as int + 1,
            ));
            assert(s@ =~= head + vbs_escaped(command@.take(i as int + 1)));
        }
        i = i + 1;
    }
    proof {
        assert(command@.take(len as int) =~= command@);
    }
    s.append("\", 0\r\n");
    proof {
        assert(s@ =~= spec_dashboard_vbs_content(command@));
    }
    s
}

/// Escaping a text and one more character escapes the text and then the
/// character.
proof fn lemma_vbs_escaped_push(s: Seq<char>, c: char)
    ensures
        vbs_escaped(s.push(c)) == vbs_escaped(s) + (if c == '"' {
            seq!['"', '"']
        } else {
            seq![c]
        }),
    decreases s.len(),
{
    if s.len() == 0 {
        assert(s.push(c).drop_first() =~= Seq::<char>::empty());
        assert(s.push(c)[0] == c);
        assert(vbs_escaped(Seq::<char>::empty()) =~= Seq::<char>::empty());
        assert(vbs_escaped(s.push(c)) =~= vbs_escaped(s) + (if c == '"' {
            seq!['"', '"']
        } else {
            seq![c]
        }));
    } else {
        assert(s.push(c).drop_first() =~= s.drop_first().push(c));
        assert(s.push(c)[0] == s[0]);
        lemma_vbs_escaped_push(s.drop_first(), c);
        assert(vbs_escaped(s.push(c)) =~= vbs_escaped(s) + (if c == '"' {
            seq!['"', '"']
        } else {
            seq![c]
        }));
    }
}

} // verus!
