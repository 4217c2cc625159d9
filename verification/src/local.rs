//! The locally installed application: what each platform's observations
//! say about whether it is installed, and which version it is.
//!
//! Looking at the disk, running package managers and reading executables
//! happens outside this module; the functions here take what was observed.

use vstd::prelude::*;

use crate::cli::opt_view;
use crate::text::{
    chars_of, has_prefix, index_of, is_digit, is_digit_char, lemma_index_of,
    region_has_prefix, region_index_of, region_trim_end, region_trim_start, substring, trim,
    trim_end,
};
use crate::version::{squirrel_newest, squirrel_pick_latest};

verus! {

// ----------------------------------------------------------------------
// The local application
// ----------------------------------------------------------------------

/// Whether the application is installed, and the version that could be read.
#[derive(Debug, PartialEq, Eq)]
pub struct LocalApp {
    pub installed: bool,
    pub version: Option<String>,
}

/// [`LocalApp`] with its version as a character sequence.
pub struct LocalAppView {
    pub installed: bool,
    pub version: Option<Seq<char>>,
}

impl View for LocalApp {
    type V = LocalAppView;

    open spec fn view(&self) -> LocalAppView {
        LocalAppView { installed: self.installed, version: opt_view(self.version) }
    }
}

/// The state of an application that is not installed.
pub open spec fn not_installed() -> LocalAppView {
    LocalAppView { installed: false, version: None }
}

// ----------------------------------------------------------------------
// Where installations are looked for
// ----------------------------------------------------------------------

/// The macOS application bundle looked at when `--app` is not given.
pub const MACOS_DEFAULT_APP: &'static str = "/Applications/ZCode.app";

/// The directory whose entries are scanned for a Linux installation.
pub const LINUX_OPT_DIR: &'static str = "/opt";

/// The per-user NSIS installation's executable, below `%LOCALAPPDATA%`.
pub const WINDOWS_NSIS_EXE: &'static str = "Programs\\ZCode\\ZCode.exe";

/// The Squirrel installation directory, below `%LOCALAPPDATA%`.
pub const WINDOWS_SQUIRREL_DIR: &'static str = "zcode";

/// The macOS application directory looked at: `--app` when given, else the default.
pub open spec fn macos_app_dir_spec(override_path: Option<Seq<char>>) -> Seq<char> {
    match override_path {
        Some(p) => p,
        None => MACOS_DEFAULT_APP@,
    }
}

/// The macOS application directory to look at.
pub fn macos_app_dir(override_path: Option<&str>) -> (r: &str)
    ensures
        r@ == macos_app_dir_spec(opt_str(override_path)),
{
    match override_path {
        Some(p) => p,
        None => MACOS_DEFAULT_APP,
    }
}

/// The fixed directories whose presence means a Linux installation.
pub open spec fn linux_install_dirs_spec() -> Seq<Seq<char>> {
    seq!["/opt/ZCode"@, "/opt/zcode"@, "/usr/lib/zcode"@]
}

/// The fixed directories whose presence means a Linux installation.
pub fn linux_install_dirs() -> (r: Vec<&'static str>)
    ensures
        r@.map_values(|d: &str| d@) == linux_install_dirs_spec(),
{
    let mut r: Vec<&'static str> = Vec::new();
    r.push("/opt/ZCode");
    r.push("/opt/zcode");
    r.push("/usr/lib/zcode");
    assert(r@.map_values(|d: &str| d@) =~= linux_install_dirs_spec());
    r
}

// ----------------------------------------------------------------------
// Line-oriented command output
// ----------------------------------------------------------------------

/// A line without the `\r` of a `\r\n` ending.
pub open spec fn strip_cr(l: Seq<char>) -> Seq<char> {
    if l.len() > 0 && l.last() == '\r' {
        l.drop_last()
    } else {
        l
    }
}

/// The first line of `t` (up to the first `\n`, without a `\r` before it).
pub open spec fn first_line(t: Seq<char>) -> Seq<char> {
    match index_of(t, '\n') {
        Some(i) => strip_cr(t.take(i)),
        None => t,
    }
}

/// What follows the first line of `t` and its `\n`.
pub open spec fn after_first_line(t: Seq<char>) -> Seq<char> {
    match index_of(t, '\n') {
        Some(i) => t.skip(i + 1),
        None => Seq::empty(),
    }
}

/// The lines of `t`, as `str::lines` yields them.
pub open spec fn lines_of(t: Seq<char>) -> Seq<Seq<char>>
    decreases t.len(),
{
    if t.len() == 0 {
        Seq::empty()
    } else {
        proof {
            lemma_index_of(t, '\n');
        }
        seq![first_line(t)] + lines_of(after_first_line(t))
    }
}

/// The position of the first line that begins with `p`.
pub open spec fn first_with_prefix(ls: Seq<Seq<char>>, p: Seq<char>) -> Option<int>
    decreases ls.len(),
{
    if ls.len() == 0 {
        None
    } else if has_prefix(ls[0], p) {
        Some(0)
    } else {
        match first_with_prefix(ls.drop_first(), p) {
            Some(k) => Some(k + 1),
            None => None,
        }
    }
}

/// The version `dpkg -s` reports: the rest of the first `Version: ` line,
/// without trailing white space, when that is not empty.
pub open spec fn dpkg_version(text: Seq<char>) -> Option<Seq<char>> {
    let ls = lines_of(text);
    match first_with_prefix(ls, "Version: "@) {
        Some(k) => {
            let v = trim_end(ls[k].skip("Version: "@.len() as int));
            if v.len() > 0 {
                Some(v)
            } else {
                None
            }
        },
        None => None,
    }
}

/// The version `rpm -q` reports in `<name>-<version>-<release>`: the field
/// after the first `-`, up to the next `-`, when it starts with a digit.
pub open spec fn rpm_version(text: Seq<char>) -> Option<Seq<char>> {
    let line = trim(text);
    match index_of(line, '-') {
        None => None,
        Some(i) => {
            let after = line.skip(i + 1);
            let ver = match index_of(after, '-') {
                Some(j) => after.take(j),
                None => after,
            };
            if ver.len() > 0 && is_digit(ver[0]) {
                Some(ver)
            } else {
                None
            }
        },
    }
}

/// Lines of a text whose first line does not begin with `p` start over after it.
proof fn lemma_first_with_prefix_step(t: Seq<char>, p: Seq<char>)
    requires
        t.len() > 0,
        !has_prefix(first_line(t), p),
    ensures
        first_with_prefix(lines_of(t), p) == (match first_with_prefix(
            lines_of(after_first_line(t)),
            p,
        ) {
            Some(k) => Some(k + 1),
            None => None::<int>,
        }),
{
    let ls = lines_of(t);
    assert(ls.drop_first() =~= lines_of(after_first_line(t)));
}

/// A text whose first line is not a `Version: ` line reports what the rest reports.
proof fn lemma_dpkg_version_step(t: Seq<char>)
    requires
        t.len() > 0,
        !has_prefix(first_line(t), "Version: "@),
    ensures
        dpkg_version(t) == dpkg_version(after_first_line(t)),
{
    lemma_first_with_prefix_step(t, "Version: "@);
    let ls = lines_of(t);
    let rest = lines_of(after_first_line(t));
    assert(ls == seq![first_line(t)] + rest);
    if let Some(k) = first_with_prefix(rest, "Version: "@) {
        lemma_first_with_prefix_bound(rest, "Version: "@);
        assert(ls[k + 1] == rest[k]);
    }
}

/// `first_with_prefix` names a position of the sequence.
proof fn lemma_first_with_prefix_bound(ls: Seq<Seq<char>>, p: Seq<char>)
    ensures
        first_with_prefix(ls, p) matches Some(k) ==> 0 <= k < ls.len(),
    decreases ls.len(),
{
    if ls.len() > 0 {
        lemma_first_with_prefix_bound(ls.drop_first(), p);
    }
}

/// Extracts the value of the first `Version: ` line of `dpkg -s` output.
pub fn version_from_dpkg_output(text: &str) -> (r: Option<String>)
    ensures
        opt_view(r) == dpkg_version(text@),
{
    let s = chars_of(text);
    let n: usize = s.len();
    let prefix = chars_of("Version: ");
    let mut p: usize = 0;
    assert(s@.subrange(0, n as int) =~= text@);
    while p < n
        invariant
            p <= n == s.len(),
            prefix@ == "Version: "@,
            s@ == text@,
            dpkg_version(text@) == dpkg_version(s@.subrange(p as int, n as int)),
        decreases n - p,
    {
        let ghost t = s@.subrange(p as int, n as int);
        proof {
            lemma_index_of(t, '\n');
        }
        let (line_end, next): (usize, usize) = match region_index_of(&s, p, n, '\n') {
            Some(k) => {
                let e: usize = p + k;
                assert(t.take(k as int) =~= s@.subrange(p as int, e as int));
                assert(t.skip(k + 1) =~= s@.subrange(e + 1, n as int));
                if e > p && s[e - 1] == '\r' {
                    assert(s@.subrange(p as int, e as int).drop_last() =~= s@.subrange(
                        p as int,
                        e - 1,
                    ));
                    (e - 1, e + 1)
                } else {
                    (e, e + 1)
                }
            },
            None => {
                assert(s@.subrange(n as int, n as int) =~= Seq::<char>::empty());
                (n, n)
            },
        };
        assert(first_line(t) == s@.subrange(p as int, line_end as int));
        assert(after_first_line(t) == s@.subrange(next as int, n as int));
        assert(lines_of(t)[0] == first_line(t));
        if region_has_prefix(&s, p, line_end, &prefix) {
            let vstart: usize = p + prefix.len();
            let vend: usize = region_trim_end(&s, vstart, line_end);
            assert(first_line(t).skip(prefix.len() as int) =~= s@.subrange(
                vstart as int,
                line_end as int,
            ));
            if vend > vstart {
                return Some(substring(text, vstart, vend));
            } else {
                return None;
            }
        }
        proof {
            lemma_dpkg_version_step(t);
        }
        p = next;
    }
    assert(lines_of(s@.subrange(p as int, n as int)) =~= Seq::<Seq<char>>::empty());
    None
}

/// Extracts the version field from `rpm -q` output such as `zcode-1.2.3-1.x86_64`.
pub fn version_from_rpm_output(text: &str) -> (r: Option<String>)
    ensures
        opt_view(r) == rpm_version(text@),
{
    let s = chars_of(text);
    let n: usize = s.len();
    let e: usize = region_trim_end(&s, 0, n);
    let b: usize = region_trim_start(&s, 0, e);
    assert(s@.subrange(0, n as int) =~= text@);
    let ghost line = s@.subrange(b as int, e as int);
    assert(line == trim(text@));
    proof {
        lemma_index_of(line, '-');
    }
    match region_index_of(&s, b, e, '-') {
        None => None,
        Some(i) => {
            let a: usize = b + i + 1;
            let ghost after = line.skip(i + 1);
            assert(after =~= s@.subrange(a as int, e as int));
            proof {
                lemma_index_of(after, '-');
            }
            let ve: usize = match region_index_of(&s, a, e, '-') {
                Some(j) => {
                    assert(after.take(j as int) =~= s@.subrange(a as int, a + j));
                    a + j
                },
                None => e,
            };
            if ve > a && is_digit_char(s[a]) {
                Some(substring(text, a, ve))
            } else {
                None
            }
        },
    }
}

/// The version the package managers report: `dpkg`'s first, else `rpm`'s.
/// Each argument is the output of a query that succeeded, or `None`.
pub fn package_manager_version(dpkg_output: Option<&str>, rpm_output: Option<&str>) -> (r: Option<
    String,
>)
    ensures
        opt_view(r) == (match dpkg_output {
            Some(d) if dpkg_version(d@) is Some => dpkg_version(d@),
            _ => match rpm_output {
                Some(o) => rpm_version(o@),
                None => None,
            },
        }),
{
    if let Some(d) = dpkg_output {
        let v = version_from_dpkg_output(d);
        if v.is_some() {
            return v;
        }
    }
    match rpm_output {
        Some(o) => version_from_rpm_output(o),
        None => None,
    }
}

// ----------------------------------------------------------------------
// Linux
// ----------------------------------------------------------------------

/// Whether some entry of `/opt` is named like an installation (`ZCode…` or `zcode…`).
pub open spec fn opt_entry_installed(names: Seq<String>) -> bool {
    exists|i: int|
        0 <= i < names.len() && (has_prefix(#[trigger] names[i]@, "ZCode"@) || has_prefix(
            names[i]@,
            "zcode"@,
        ))
}

/// Whether the usual Linux installation places hold the application: one of
/// the fixed directories exists, or an entry of `/opt` is named like one.
pub fn linux_dirs_installed(candidate_dir_present: bool, opt_entry_names: &Vec<String>) -> (r:
    bool)
    ensures
        r == (candidate_dir_present || opt_entry_installed(opt_entry_names@)),
{
    if candidate_dir_present {
        return true;
    }
    let upper = chars_of("ZCode");
    let lower = chars_of("zcode");
    for i in 0..opt_entry_names.len()
        invariant
            upper@ == "ZCode"@,
            lower@ == "zcode"@,
            forall|j: int|
                0 <= j < i ==> !(has_prefix(#[trigger] opt_entry_names@[j]@, "ZCode"@)
                    || has_prefix(opt_entry_names@[j]@, "zcode"@)),
    {
        let name = chars_of(opt_entry_names[i].as_str());
        assert(name@.subrange(0, name.len() as int) =~= name@);
        if region_has_prefix(&name, 0, name.len(), &upper) || region_has_prefix(
            &name,
            0,
            name.len(),
            &lower,
        ) {
            return true;
        }
    }
    false
}

/// The Linux state: installed when the `--app` path exists (when given),
/// else when the usual places hold it; the version is the package managers'.
pub open spec fn linux_app(
    override_exists: Option<bool>,
    dirs_installed: bool,
    package_version: Option<Seq<char>>,
) -> LocalAppView {
    LocalAppView {
        installed: match override_exists {
            Some(e) => e,
            None => dirs_installed,
        },
        version: package_version,
    }
}

/// Whether the application is installed on Linux, and its version: installed
/// when the `--app` path exists (when given), else when the usual places hold
/// it; the version is the package managers'.
pub fn detect_linux(override_exists: Option<bool>, dirs_installed: bool, package_version: Option<
    String,
>) -> (r: LocalApp)
    ensures
        r@ == linux_app(override_exists, dirs_installed, opt_view(package_version)),
{
    let installed: bool = match override_exists {
        Some(e) => e,
        None => dirs_installed,
    };
    LocalApp { installed, version: package_version }
}

// ----------------------------------------------------------------------
// macOS
// ----------------------------------------------------------------------

/// The string stored under `key` in the top-level dictionary of the property
/// list that `bytes` encodes (XML or binary), when there is one.
pub uninterp spec fn plist_dictionary_string(bytes: Seq<u8>, key: Seq<char>) -> Option<Seq<char>>;

/// Reads the property list in `bytes` with `plist::Value::from_reader` (XML,
/// binary or ASCII) and takes the string under `key` of its top-level
/// dictionary with `plist::Dictionary::remove`. The contract claims only that
/// the result is the one named by `plist_dictionary_string` for these bytes
/// and this key; what that is, the plist crate decides.
#[verifier::external_body]
fn plist_string_entry(bytes: &[u8], key: &str) -> (r: Option<String>)
    ensures
        opt_view(r) == plist_dictionary_string(bytes@, key@),
{
    let value = plist::Value::from_reader(std::io::Cursor::new(bytes)).ok()?;
    value.into_dictionary()?.remove(key)?.into_string()
}

/// The `CFBundleShortVersionString` of an `Info.plist`, given its contents
/// (`None` when the file could not be read).
pub fn read_plist_version(contents: Option<&[u8]>) -> (r: Option<String>)
    ensures
        contents is None ==> r is None,
        contents matches Some(b) ==> opt_view(r) == plist_dictionary_string(
            b@,
            "CFBundleShortVersionString"@,
        ),
{
    match contents {
        Some(b) => plist_string_entry(b, "CFBundleShortVersionString"),
        None => None,
    }
}

/// The macOS state: installed when the `.app` directory exists; the version
/// is that of its `Contents/Info.plist`, given by its contents.
pub open spec fn macos_app(app_dir_is_dir: bool, info_plist: Option<Seq<u8>>) -> LocalAppView {
    if !app_dir_is_dir {
        not_installed()
    } else {
        LocalAppView {
            installed: true,
            version: match info_plist {
                Some(b) => plist_dictionary_string(b, "CFBundleShortVersionString"@),
                None => None,
            },
        }
    }
}

/// An optional byte slice taken by view.
pub open spec fn opt_bytes(b: Option<&[u8]>) -> Option<Seq<u8>> {
    match b {
        Some(b) => Some(b@),
        None => None,
    }
}

/// Whether the application is installed on macOS, and its version: installed
/// when the `.app` directory exists; the version is that of its
/// `Contents/Info.plist`.
pub fn detect_macos(app_dir_is_dir: bool, info_plist: Option<&[u8]>) -> (r: LocalApp)
    ensures
        r@ == macos_app(app_dir_is_dir, opt_bytes(info_plist)),
{
    if !app_dir_is_dir {
        return LocalApp { installed: false, version: None };
    }
    LocalApp { installed: true, version: read_plist_version(info_plist) }
}

// ----------------------------------------------------------------------
// Windows
// ----------------------------------------------------------------------

/// What was observed of an executable: whether it is a file, and the version
/// its version resource gave.
#[derive(Debug)]
pub struct ExeProbe {
    pub is_file: bool,
    pub version: Option<String>,
}

/// The Windows state. The `--app` executable decides when given; else the
/// per-user NSIS installation when its executable is a file; else the newest
/// Squirrel version directory, when there is one.
pub open spec fn windows_app(
    override_exe: Option<ExeProbe>,
    nsis_exe: Option<ExeProbe>,
    squirrel_dir_names: Option<Vec<String>>,
) -> LocalAppView {
    match override_exe {
        Some(p) => LocalAppView { installed: p.is_file, version: opt_view(p.version) },
        None => if nsis_exe matches Some(p) && p.is_file {
            LocalAppView { installed: true, version: opt_view(nsis_exe->0.version) }
        } else {
            match squirrel_dir_names {
                Some(names) => match squirrel_newest(names@) {
                    Some(v) => LocalAppView { installed: true, version: Some(v) },
                    None => not_installed(),
                },
                None => not_installed(),
            }
        },
    }
}

/// Whether the application is installed on Windows, and its version.
/// `override_exe` is the `--app` executable, when given; `nsis_exe` the
/// per-user NSIS installation's executable, when `%LOCALAPPDATA%` is set;
/// `squirrel_dir_names` the entries of the Squirrel installation directory,
/// when it exists. They are consulted in this order.
pub fn detect_windows(
    override_exe: Option<ExeProbe>,
    nsis_exe: Option<ExeProbe>,
    squirrel_dir_names: Option<Vec<String>>,
) -> (r: LocalApp)
    ensures
        r@ == windows_app(override_exe, nsis_exe, squirrel_dir_names),
{
    if let Some(p) = override_exe {
        return LocalApp { installed: p.is_file, version: p.version };
    }
    if let Some(p) = nsis_exe {
        if p.is_file {
            return LocalApp { installed: true, version: p.version };
        }
    }
    if let Some(names) = squirrel_dir_names {
        if let Some(v) = squirrel_pick_latest(&names) {
            return LocalApp { installed: true, version: Some(v) };
        }
    }
    LocalApp { installed: false, version: None }
}

/// A version resource's `ProductVersion` string, trimmed, when it is not blank.
pub fn product_version_text(raw: &str) -> (r: Option<String>)
    ensures
        trim(raw@).len() == 0 ==> r is None,
        trim(raw@).len() > 0 ==> (r matches Some(s) && s@ == trim(raw@)),
{
    let s = chars_of(raw);
    let n: usize = s.len();
    let e: usize = region_trim_end(&s, 0, n);
    let b: usize = region_trim_start(&s, 0, e);
    assert(s@.subrange(0, n as int) =~= raw@);
    if b == e {
        None
    } else {
        Some(substring(raw, b, e))
    }
}

/// The version a version resource gives: its `ProductVersion` trimmed, when
/// that is present and not blank; else its fixed file version, when present.
pub open spec fn exe_resource_version_spec(
    product_version: Option<Seq<char>>,
    fixed_version_parts: Option<(u32, u32)>,
) -> Option<Seq<char>> {
    if product_version matches Some(p) && trim(p).len() > 0 {
        Some(trim(product_version->0))
    } else {
        match fixed_version_parts {
            Some(parts) => Some(fixed_version(parts.0, parts.1)),
            None => None,
        }
    }
}

/// An optional `&str` taken by view.
pub open spec fn opt_str(s: Option<&str>) -> Option<Seq<char>> {
    match s {
        Some(s) => Some(s@),
        None => None,
    }
}

/// Chooses the version an executable's version resource gives:
/// `ProductVersion` first, else the fixed file version
/// (`dwFileVersionMS`, `dwFileVersionLS`).
pub fn exe_resource_version(
    product_version: Option<&str>,
    fixed_version_parts: Option<(u32, u32)>,
) -> (r: Option<String>)
    ensures
        opt_view(r) == exe_resource_version_spec(opt_str(product_version), fixed_version_parts),
{
    if let Some(p) = product_version {
        let t = product_version_text(p);
        if t.is_some() {
            return t;
        }
    }
    match fixed_version_parts {
        Some(parts) => Some(fixed_file_version_text(parts.0, parts.1)),
        None => None,
    }
}

/// The decimal digits of `n`.
pub open spec fn decimal(n: nat) -> Seq<char>
    decreases n,
{
    if n < 10 {
        seq![digit_char(n)]
    } else {
        decimal(n / 10) + seq![digit_char(n % 10)]
    }
}

/// The character of a decimal digit.
pub open spec fn digit_char(d: nat) -> char {
    if d == 0 {
        '0'
    } else if d == 1 {
        '1'
    } else if d == 2 {
        '2'
    } else if d == 3 {
        '3'
    } else if d == 4 {
        '4'
    } else if d == 5 {
        '5'
    } else if d == 6 {
        '6'
    } else if d == 7 {
        '7'
    } else if d == 8 {
        '8'
    } else {
        '9'
    }
}

/// The text of a fixed file version `a.b.c.d` (from the two 32-bit halves),
/// without a fourth field that is 0.
pub open spec fn fixed_version(ms: u32, ls: u32) -> Seq<char> {
    let head = decimal((ms / 65536) as nat) + "."@ + decimal((ms % 65536) as nat) + "."@
        + decimal((ls / 65536) as nat);
    if ls % 65536 == 0 {
        head
    } else {
        head + "."@ + decimal((ls % 65536) as nat)
    }
}

/// The one-character text of a decimal digit.
fn digit_text(d: u32) -> (r: &'static str)
    requires
        d < 10,
    ensures
        r@ == seq![digit_char(d as nat)],
{
    proof {
        reveal_strlit("0");
        reveal_strlit("1");
        reveal_strlit("2");
        reveal_strlit("3");
        reveal_strlit("4");
        reveal_strlit("5");
        reveal_strlit("6");
        reveal_strlit("7");
        reveal_strlit("8");
        reveal_strlit("9");
    }
    if d == 0 {
        "0"
    } else if d == 1 {
        "1"
    } else if d == 2 {
        "2"
    } else if d == 3 {
        "3"
    } else if d == 4 {
        "4"
    } else if d == 5 {
        "5"
    } else if d == 6 {
        "6"
    } else if d == 7 {
        "7"
    } else if d == 8 {
        "8"
    } else {
        "9"
    }
}

/// `n` written in decimal.
pub fn decimal_text(n: u32) -> (r: String)
    ensures
        r@ == decimal(n as nat),
    decreases n,
{
    if n < 10 {
        String::from_str(digit_text(n))
    } else {
        decimal_text(n / 10).concat(digit_text(n % 10))
    }
}

/// The version text of a `VS_FIXEDFILEINFO` (`dwFileVersionMS`, `dwFileVersionLS`).
pub fn fixed_file_version_text(ms: u32, ls: u32) -> (r: String)
    ensures
        r@ == fixed_version(ms, ls),
{
    let head = decimal_text(ms / 65536).concat(".").concat(decimal_text(ms % 65536).as_str()).concat(
        ".",
    ).concat(decimal_text(ls / 65536).as_str());
    if ls % 65536 == 0 {
        head
    } else {
        head.concat(".").concat(decimal_text(ls % 65536).as_str())
    }
}

} // verus!
