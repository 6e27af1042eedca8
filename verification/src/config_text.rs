//! The textual configuration formats the coordinator reads and writes: the
//! per-distribution `wsl.conf` key/value file and the host-global
//! `.wslconfig` file. Reading and writing the files themselves, or running
//! the in-distribution commands that fetch them, is I/O and happens outside
//! the crate; the parsing and rendering here is verified.

use vstd::prelude::*;

use crate::models::WslConf;
use crate::text::{
    find_char, len_until, push_string, spec_lines, spec_trim, split_lines, str_eq, trim_str,
};

verus! {

broadcast use vstd::seq::group_seq_axioms;

/// The defaults the external tool documents for a missing or empty
/// `wsl.conf`.
pub open spec fn default_wsl_conf() -> WslConf {
    WslConf {
        systemd: false,
        generate_hosts: true,
        generate_resolv_conf: true,
        interop_enabled: true,
        append_windows_path: true,
    }
}

/// One configuration line applied to the values so far: blank lines,
/// comment lines and lines without `=` change nothing; a recognized key
/// sets its field to whether the trimmed value reads `true`.
pub open spec fn apply_conf_line(c: WslConf, line: Seq<char>) -> WslConf {
    let t = spec_trim(line);
    if t.len() == 0 || t[0] == '#' {
        c
    } else {
        let e = len_until(t, '=');
        if e == t.len() {
            c
        } else {
            let key = spec_trim(t.take(e));
            let value = spec_trim(t.skip(e + 1));
            let on = value == "true"@;
            if key == "systemd"@ {
                WslConf { systemd: on, ..c }
            } else if key == "generateHosts"@ {
                WslConf { generate_hosts: on, ..c }
            } else if key == "generateResolvConf"@ {
                WslConf { generate_resolv_conf: on, ..c }
            } else if key == "enabled"@ {
                WslConf { interop_enabled: on, ..c }
            } else if key == "appendWindowsPath"@ {
                WslConf { append_windows_path: on, ..c }
            } else {
                c
            }
        }
    }
}

/// The values after applying every line in order to the values so far.
pub open spec fn conf_after(lines: Seq<Seq<char>>, c: WslConf) -> WslConf
    decreases lines.len(),
{
    if lines.len() == 0 {
        c
    } else {
        conf_after(lines.drop_first(), apply_conf_line(c, lines[0]))
    }
}

/// The values a whole `wsl.conf` text carries, starting from the defaults.
pub open spec fn spec_parse_wsl_conf(s: Seq<char>) -> WslConf {
    conf_after(spec_lines(s), default_wsl_conf())
}

/// Applies one configuration line.
fn apply_conf_line_exec(c: WslConf, line: &str) -> (r: WslConf)
    ensures
        r == apply_conf_line(c, line@),
{
    let t = trim_str(line);
    let tlen = t.unicode_len();
    if tlen == 0 || t.get_char(0) == '#' {
        return c;
    }
    let e = find_char(t, '=');
    if e == tlen {
        return c;
    }
    let key = trim_str(t.substring_char(0, e));
    let value = trim_str(t.substring_char(e + 1, tlen));
    proof {
        assert(t@.subrange(0, e as int) =~= t@.take(e as int));
        assert(t@.subrange(e as int + 1, tlen as int) =~= t@.skip(e as int + 1));
    }
    let on = str_eq(value, "true");
    if str_eq(key, "systemd") {
        WslConf { systemd: on, ..c }
    } else if str_eq(key, "generateHosts") {
        WslConf { generate_hosts: on, ..c }
    } else if str_eq(key, "generateResolvConf") {
        WslConf { generate_resolv_conf: on, ..c }
    } else if str_eq(key, "enabled") {
        WslConf { interop_enabled: on, ..c }
    } else if str_eq(key, "appendWindowsPath") {
        WslConf { append_windows_path: on, ..c }
    } else {
        c
    }
}

/// Parses a whole `wsl.conf` text: simple `key = value` lines, `#`
/// comments, unknown keys ignored, the tool's defaults for anything the
/// file leaves out.
pub fn parse_wsl_conf(content: &str) -> (r: WslConf)
    ensures
        r == spec_parse_wsl_conf(content@),
{
    let lines = split_lines(content);
    let n = lines.len();
    let mut c = WslConf {
        systemd: false,
        generate_hosts: true,
        generate_resolv_conf: true,
        interop_enabled: true,
        append_windows_path: true,
    };
    let mut i: usize = 0;
    proof {
        assert(lines.deep_view().skip(0) =~= lines.deep_view());
    }
    while i < n
        invariant
            i <= n,
            n == lines@.len(),
            lines.deep_view().len() == n,
            lines.deep_view() == spec_lines(content@),
            conf_after(lines.deep_view().skip(i as int), c) == spec_parse_wsl_conf(content@),
        decreases n - i,
    {
        proof {
            assert(lines.deep_view().skip(i as int)[0] == lines.deep_view()[i as int]);
            assert(lines.deep_view()[i as int] == lines@[i as int]@);
            assert(lines.deep_view().skip(i as int).drop_first() =~= lines.deep_view().skip(
                i as int + 1,
            ));
        }
        c = apply_conf_line_exec(c, lines[i].as_str());
        i = i + 1;
    }
    c
}

/// `true` or `false`, as the configuration file spells booleans.
pub open spec fn spec_bool_text(b: bool) -> Seq<char> {
    if b {
        "true"@
    } else {
        "false"@
    }
}

/// Renders a boolean as the configuration file spells it.
pub fn bool_text(b: bool) -> (r: &'static str)
    ensures
        r@ == spec_bool_text(b),
{
    if b {
        "true"
    } else {
        "false"
    }
}

/// The full `wsl.conf` text for the given values. Writing it replaces the
/// whole file: settings outside these keys are not preserved.
pub open spec fn spec_format_wsl_conf(c: WslConf) -> Seq<char> {
    "[boot]\nsystemd="@ + spec_bool_text(c.systemd) + "\n\n[network]\ngenerateHosts="@
        + spec_bool_text(c.generate_hosts) + "\ngenerateResolvConf="@ + spec_bool_text(
        c.generate_resolv_conf,
    ) + "\n\n[interop]\nenabled="@ + spec_bool_text(c.interop_enabled) + "\nappendWindowsPath="@
        + spec_bool_text(c.append_windows_path) + "\n"@
}

/// Renders the full `wsl.conf` text for the given values.
pub fn format_wsl_conf(c: &WslConf) -> (r: String)
    ensures
        r@ == spec_format_wsl_conf(*c),
{
    let mut s = String::from_str("[boot]\nsystemd=");
    s.append(bool_text(c.systemd));
    s.append("\n\n[network]\ngenerateHosts=");
    s.append(bool_text(c.generate_hosts));
    s.append("\ngenerateResolvConf=");
    s.append(bool_text(c.generate_resolv_conf));
    s.append("\n\n[interop]\nenabled=");
    s.append(bool_text(c.interop_enabled));
    s.append("\nappendWindowsPath=");
    s.append(bool_text(c.append_windows_path));
    s.append("\n");
    s
}

/// Argument vector that reads a distribution's `wsl.conf`.
pub open spec fn read_conf_args(name: Seq<char>) -> Seq<Seq<char>> {
    seq!["-d"@, name, "-u"@, "root"@, "--"@, "cat"@, "/etc/wsl.conf"@]
}

/// Builds the argument vector that reads a distribution's `wsl.conf`.
pub fn build_read_conf_args(name: &str) -> (args: Vec<String>)
    ensures
        args.deep_view() == read_conf_args(name@),
{
    let mut v: Vec<String> = Vec::new();
    push_string(&mut v, "-d");
    push_string(&mut v, name);
    push_string(&mut v, "-u");
    push_string(&mut v, "root");
    push_string(&mut v, "--");
    push_string(&mut v, "cat");
    push_string(&mut v, "/etc/wsl.conf");
    proof {
        assert(v.deep_view() =~= read_conf_args(name@));
    }
    v
}

/// The in-distribution shell command that replaces `wsl.conf` with the
/// given values.
pub open spec fn write_conf_script(c: WslConf) -> Seq<char> {
    "printf '"@ + spec_format_wsl_conf(c) + "' > /etc/wsl.conf"@
}

/// Argument vector that writes a distribution's `wsl.conf`.
pub open spec fn write_conf_args(name: Seq<char>, c: WslConf) -> Seq<Seq<char>> {
    seq!["-d"@, name, "-u"@, "root"@, "--"@, "sh"@, "-c"@, write_conf_script(c)]
}

/// Builds the argument vector that writes a distribution's `wsl.conf`.
pub fn build_write_conf_args(name: &str, c: &WslConf) -> (args: Vec<String>)
    ensures
        args.deep_view() == write_conf_args(name@, *c),
{
    let mut script = String::from_str("printf '");
    let body = format_wsl_conf(c);
    script.append(body.as_str());
    script.append("' > /etc/wsl.conf");
    let mut v: Vec<String> = Vec::new();
    push_string(&mut v, "-d");
    push_string(&mut v, name);
    push_string(&mut v, "-u");
    push_string(&mut v, "root");
    push_string(&mut v, "--");
    push_string(&mut v, "sh");
    push_string(&mut v, "-c");
    let ghost dv = v.deep_view();
    v.push(script);
    proof {
        assert(v.deep_view() =~= dv.push(write_conf_script(*c)));
        assert(v.deep_view() =~= write_conf_args(name@, *c));
    }
    v
}

/// The host-global backing-store settings carried by the `.wslconfig`
/// file. Empty strings mean "not set".
#[derive(Clone, Debug)]
pub struct GlobalWslConfig {
    pub memory: String,
    pub processors: String,
    pub networking_mode: String,
    pub swap: String,
}

impl Default for GlobalWslConfig {
    /// All settings unset.
    fn default() -> (r: Self)
        ensures
            r.memory@.len() == 0,
            r.processors@.len() == 0,
            r.networking_mode@.len() == 0,
            r.swap@.len() == 0,
    {
        GlobalWslConfig {
            memory: String::new(),
            processors: String::new(),
            networking_mode: String::new(),
            swap: String::new(),
        }
    }
}

/// Mathematical image of the global settings.
pub struct GlobalConfigView {
    pub memory: Seq<char>,
    pub processors: Seq<char>,
    pub networking_mode: Seq<char>,
    pub swap: Seq<char>,
}

impl GlobalWslConfig {
    /// The settings' mathematical image.
    pub open spec fn view(self) -> GlobalConfigView {
        GlobalConfigView {
            memory: self.memory@,
            processors: self.processors@,
            networking_mode: self.networking_mode@,
            swap: self.swap@,
        }
    }
}

/// One `.wslconfig` line applied to the settings so far: blank lines, `#`
/// comments, section headers and unknown keys change nothing.
pub open spec fn apply_global_line(c: GlobalConfigView, line: Seq<char>) -> GlobalConfigView {
    let t = spec_trim(line);
    if t.len() == 0 || t[0] == '#' {
        c
    } else {
        let e = len_until(t, '=');
        if e == t.len() {
            c
        } else {
            let key = spec_trim(t.take(e));
            let value = spec_trim(t.skip(e + 1));
            if key == "memory"@ {
                GlobalConfigView { memory: value, ..c }
            } else if key == "processors"@ {
                GlobalConfigView { processors: value, ..c }
            } else if key == "networkingMode"@ {
                GlobalConfigView { networking_mode: value, ..c }
            } else if key == "swap"@ {
                GlobalConfigView { swap: value, ..c }
            } else {
                c
            }
        }
    }
}

/// The settings after applying every line in order.
pub open spec fn global_after(lines: Seq<Seq<char>>, c: GlobalConfigView) -> GlobalConfigView
    decreases lines.len(),
{
    if lines.len() == 0 {
        c
    } else {
        global_after(lines.drop_first(), apply_global_line(c, lines[0]))
    }
}

/// All settings unset.
pub open spec fn empty_global_config() -> GlobalConfigView {
    GlobalConfigView { memory: seq![], processors: seq![], networking_mode: seq![], swap: seq![] }
}

/// The settings a whole `.wslconfig` text carries.
pub open spec fn spec_parse_global_config(s: Seq<char>) -> GlobalConfigView {
    global_after(spec_lines(s), empty_global_config())
}

/// Applies one `.wslconfig` line.
fn apply_global_line_exec(c: GlobalWslConfig, line: &str) -> (r: GlobalWslConfig)
    ensures
        r.view() == apply_global_line(c.view(), line@),
{
    let t = trim_str(line);
    let tlen = t.unicode_len();
    if tlen == 0 || t.get_char(0) == '#' {
        return c;
    }
    let e = find_char(t, '=');
    if e == tlen {
        return c;
    }
    let key = trim_str(t.substring_char(0, e));
    let value = trim_str(t.substring_char(e + 1, tlen));
    proof {
        assert(t@.subrange(0, e as int) =~= t@.take(e as int));
        assert(t@.subrange(e as int + 1, tlen as int) =~= t@.skip(e as int + 1));
    }
    if str_eq(key, "memory") {
        GlobalWslConfig { memory: String::from_str(value), ..c }
    } else if str_eq(key, "processors") {
        GlobalWslConfig { processors: String::from_str(value), ..c }
    } else if str_eq(key, "networkingMode") {
        GlobalWslConfig { networking_mode: String::from_str(value), ..c }
    } else if str_eq(key, "swap") {
        GlobalWslConfig { swap: String::from_str(value), ..c }
    } else {
        c
    }
}

/// Parses a whole `.wslconfig` text.
pub fn parse_global_config(content: &str) -> (r: GlobalWslConfig)
    ensures
        r.view() == spec_parse_global_config(content@),
{
    let lines = split_lines(content);
    let n = lines.len();
    let mut c = GlobalWslConfig::default();
    let mut i: usize = 0;
    proof {
        assert(lines.deep_view().skip(0) =~= lines.deep_view());
        assert(c.memory@ =~= Seq::<char>::empty());
        assert(c.processors@ =~= Seq::<char>::empty());
        assert(c.networking_mode@ =~= Seq::<char>::empty());
        assert(c.swap@ =~= Seq::<char>::empty());
        assert(c.view() == empty_global_config());
    }
    while i < n
        invariant
            i <= n,
            n == lines@.len(),
            lines.deep_view().len() == n,
            lines.deep_view() == spec_lines(content@),
            global_after(lines.deep_view().skip(i as int), c.view()) == spec_parse_global_config(
                content@,
            ),
        decreases n - i,
    {
        proof {
            assert(lines.deep_view().skip(i as int)[0] == lines.deep_view()[i as int]);
            assert(lines.deep_view()[i as int] == lines@[i as int]@);
            assert(lines.deep_view().skip(i as int).drop_first() =~= lines.deep_view().skip(
                i as int + 1,
            ));
        }
        c = apply_global_line_exec(c, lines[i].as_str());
        i = i + 1;
    }
    c
}

/// The `.wslconfig` text for the given settings: the `[wsl2]` header, then
/// one line per setting that is set.
pub open spec fn spec_format_global_config(c: GlobalConfigView) -> Seq<char> {
    "[wsl2]"@ + (if c.memory.len() > 0 {
        "\nmemory="@ + c.memory
    } else {
        seq![]
    }) + (if c.processors.len() > 0 {
        "\nprocessors="@ + c.processors
    } else {
        seq![]
    }) + (if c.networking_mode.len() > 0 {
        "\nnetworkingMode="@ + c.networking_mode
    } else {
        seq![]
    }) + (if c.swap.len() > 0 {
        "\nswap="@ + c.swap
    } else {
        seq![]
    })
}

/// Renders the `.wslconfig` text for the given settings.
pub fn format_global_config(c: &GlobalWslConfig) -> (r: String)
    ensures
        r@ == spec_format_global_config(c.view()),
{
    let mut s = String::from_str("[wsl2]");
    if c.memory.as_str().unicode_len() > 0 {
        s.append("\nmemory=");
        s.append(c.memory.as_str());
    }
    if c.processors.as_str().unicode_len() > 0 {
        s.append("\nprocessors=");
        s.append(c.processors.as_str());
    }
    if c.networking_mode.as_str().unicode_len() > 0 {
        s.append("\nnetworkingMode=");
        s.append(c.networking_mode.as_str());
    }
    if c.swap.as_str().unicode_len() > 0 {
        s.append("\nswap=");
        s.append(c.swap.as_str());
    }
    proof {
        assert(s@ =~= spec_format_global_config(c.view()));
    }
    s
}

/// The accepted log-retention values, in days; anything else falls back to
/// the first.
pub fn validate_log_days(days: u8) -> (r: u8)
    ensures
        (days == 7 || days == 15 || days == 30) ==> r == days,
        !(days == 7 || days == 15 || days == 30) ==> r == 7,
{
    if days == 7 || days == 15 || days == 30 {
        days
    } else {
        7
    }
}

/// The accepted update-check intervals, in days; anything else falls back
/// to the weekly check.
pub fn validate_check_update(interval: u8) -> (r: u8)
    ensures
        (interval == 1 || interval == 7 || interval == 15 || interval == 30) ==> r == interval,
        !(interval == 1 || interval == 7 || interval == 15 || interval == 30) ==> r == 7,
{
    if interval == 1 || interval == 7 || interval == 15 || interval == 30 {
        interval
    } else {
        7
    }
}

} // verus!
