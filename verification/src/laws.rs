//! Properties that hold across the library's functions.

use vstd::prelude::*;

use crate::cli::{
    arch_canonical, endpoint_url, normalize_arch_spec, resolve_source_spec, CliView, SourceView,
};
use crate::error::UpdateErrorView;
use crate::local::{
    decimal, digit_char, dpkg_version, first_line, first_with_prefix, fixed_version, linux_app,
    lines_of, macos_app, macos_app_dir_spec, rpm_version, windows_app, ExeProbe, LocalAppView,
    MACOS_DEFAULT_APP,
};
use crate::cli::platform_spec;
use crate::local::opt_entry_installed;
use crate::output::{notes_block, strip_v_spec, up_to_date, url_kind};
use crate::version::{entry_key, is_newest_at, key_after, squirrel_newest, SortKey};
use crate::text::{
    has_prefix, is_digit, is_white_space, lemma_index_of_absent, lemma_index_of_found,
    lemma_trim_end_stable, lemma_trim_start_stable, trim,
};
use crate::version::{
    all_digits, digit_value, digits_value, field_value, is_version_char, parse_u64, sort_key,
    split_char, squirrel_version,
};

verus! {

/// Normalising an architecture twice changes nothing: the canonical names
/// are their own canonical names.
pub proof fn normalize_arch_is_idempotent(a: Seq<char>)
    ensures
        normalize_arch_spec(a) matches Ok(c) ==> normalize_arch_spec(c) == Ok::<
            Seq<char>,
            UpdateErrorView,
        >(c),
{
    reveal_strlit("arm64");
    reveal_strlit("aarch64");
    reveal_strlit("x64");
    reveal_strlit("x86_64");
    reveal_strlit("amd64");
    assert("x86_64"@.len() == 6);
    assert("arm64"@.len() == 5);
    assert("x86_64"@ != "arm64"@);
    assert("x86_64"@[0] != "aarch64"@[0]);
    assert("x86_64"@ != "aarch64"@);
}

/// `--file` is used whatever else is given; without it, `--url` is used
/// whatever `--target`, `--arch` and `--channel` say.
pub proof fn source_priority(cli: CliView, native: Seq<char>)
    ensures
        cli.file matches Some(f) ==> resolve_source_spec(cli, native) == Ok::<
            SourceView,
            UpdateErrorView,
        >(SourceView::LocalFile(f)),
        cli.file is None && cli.url is Some ==> resolve_source_spec(cli, native)
            == resolve_source_spec(
            CliView { target: None, arch: None, channel: None, ..cli },
            native,
        ),
{
}

/// With no options at all, the query is for the preview channel of macOS on
/// the running machine's architecture.
pub proof fn default_query_is_mac_preview(native: Seq<char>)
    requires
        arch_canonical(native) is Some,
    ensures
        resolve_source_spec(
            CliView { target: None, arch: None, channel: None, file: None, url: None, app: None },
            native,
        ) == Ok::<SourceView, UpdateErrorView>(
            SourceView::Remote(endpoint_url("darwin-"@ + arch_canonical(native)->0, "3"@)),
        ),
{
    reveal_strlit("mac");
    reveal_strlit("preview");
}

/// A Squirrel directory named `app-<v>` gives back `v` whenever `v` is a
/// version (a digit, then digits and dots).
pub proof fn squirrel_dir_name_round_trip(v: Seq<char>)
    requires
        v.len() > 0,
        is_digit(v[0]),
        forall|i: int| 0 <= i < v.len() ==> is_version_char(#[trigger] v[i]),
    ensures
        squirrel_version("app-"@ + v) == Some(v),
{
    let name = "app-"@ + v;
    assert(name.take("app-"@.len() as int) =~= "app-"@);
    assert(name.skip("app-"@.len() as int) =~= v);
}

/// `dpkg -s` output whose first line is `Version: <v>` reports `v`, when `v`
/// is one line that does not end in white space.
pub proof fn dpkg_reads_back_version_line(v: Seq<char>, rest: Seq<char>)
    requires
        v.len() > 0,
        !is_white_space(v.last()),
        forall|i: int| 0 <= i < v.len() ==> v[i] != '\n',
    ensures
        dpkg_version("Version: "@ + v + "\n"@ + rest) == Some(v),
{
    reveal_strlit("Version: ");
    reveal_strlit("\n");
    let p = "Version: "@;
    let t = p + v + "\n"@ + rest;
    let e: int = (p.len() + v.len()) as int;
    assert(t[e] == '\n');
    assert forall|j: int| 0 <= j < e implies t[j] != '\n' by {
        if j >= p.len() {
            assert(t[j] == v[j - p.len()]);
        }
    }
    lemma_index_of_found(t, '\n', e);
    assert(t.take(e) =~= p + v);
    assert(is_white_space('\r'));
    assert((p + v).last() == v.last());
    assert(first_line(t) =~= p + v);
    assert(lines_of(t)[0] == first_line(t));
    assert(has_prefix(lines_of(t)[0], p)) by {
        assert((p + v).take(p.len() as int) =~= p);
    }
    assert(first_with_prefix(lines_of(t), p) == Some(0int));
    assert(lines_of(t)[0].skip(p.len() as int) =~= v);
    lemma_trim_end_stable(v);
}

/// `rpm -q` output `<name>-<version>-<release>` reports `version`, when the
/// name holds no `-`, the version starts with a digit and holds no `-`, and
/// the text has no white space at either end.
pub proof fn rpm_reads_back_version_field(name: Seq<char>, ver: Seq<char>, release: Seq<char>)
    requires
        name.len() > 0,
        !is_white_space(name[0]),
        forall|i: int| 0 <= i < name.len() ==> name[i] != '-',
        ver.len() > 0,
        is_digit(ver[0]),
        forall|i: int| 0 <= i < ver.len() ==> ver[i] != '-',
        release.len() > 0,
        !is_white_space(release.last()),
    ensures
        rpm_version(name + "-"@ + ver + "-"@ + release) == Some(ver),
{
    reveal_strlit("-");
    let t = name + "-"@ + ver + "-"@ + release;
    assert(t.last() == release.last());
    lemma_trim_end_stable(t);
    assert(t[0] == name[0]);
    lemma_trim_start_stable(t);
    assert(trim(t) == t);
    assert forall|j: int| 0 <= j < name.len() implies t[j] != '-' by {
        assert(t[j] == name[j]);
    }
    assert(t[name.len() as int] == '-');
    lemma_index_of_found(t, '-', name.len() as int);
    let after = t.skip(name.len() + 1int);
    assert(after =~= ver + "-"@ + release);
    assert forall|j: int| 0 <= j < ver.len() implies after[j] != '-' by {
        assert(after[j] == ver[j]);
    }
    assert(after[ver.len() as int] == '-');
    lemma_index_of_found(after, '-', ver.len() as int);
    assert(after.take(ver.len() as int) =~= ver);
}

/// A local version written with a leading `v` compares as the same version
/// without it (unless what follows is another `v`).
pub proof fn up_to_date_ignores_leading_v(remote: Seq<char>, installed: bool, x: Seq<char>)
    requires
        x.len() == 0 || x[0] != 'v',
    ensures
        up_to_date(remote, LocalAppView { installed, version: Some(seq!['v'] + x) }) == up_to_date(
            remote,
            LocalAppView { installed, version: Some(x) },
        ),
{
    assert((seq!['v'] + x).drop_first() =~= x);
}

/// On macOS, leaving out `--app` looks at the same directory as giving the
/// default application path, so the same machine gives the same answer.
pub proof fn macos_default_app_dir()
    ensures
        macos_app_dir_spec(None) == macos_app_dir_spec(Some(MACOS_DEFAULT_APP@)),
        macos_app_dir_spec(None) == MACOS_DEFAULT_APP@,
{
}

/// On macOS a version is only reported for an installed application.
pub proof fn macos_version_implies_installed(app_dir_is_dir: bool, info_plist: Option<Seq<u8>>)
    ensures
        macos_app(app_dir_is_dir, info_plist).version is Some ==> macos_app(
            app_dir_is_dir,
            info_plist,
        ).installed,
{
}

/// On Linux, `--app` decides only whether the application is installed: it
/// is installed exactly when that path exists, and the version is the package
/// managers' whether `--app` is given or not.
pub proof fn linux_override_decides_installed_only(
    path_exists: bool,
    dirs_installed: bool,
    other_dirs_installed: bool,
    package_version: Option<Seq<char>>,
)
    ensures
        linux_app(Some(path_exists), dirs_installed, package_version) == (LocalAppView {
            installed: path_exists,
            version: package_version,
        }),
        linux_app(Some(path_exists), dirs_installed, package_version).version == linux_app(
            None,
            other_dirs_installed,
            package_version,
        ).version,
{
}

/// On Windows a version is only reported for an installed application, as
/// long as the `--app` probe reads a version only from a file.
pub proof fn windows_version_implies_installed(
    override_exe: Option<ExeProbe>,
    nsis_exe: Option<ExeProbe>,
    squirrel_dir_names: Option<Vec<String>>,
)
    requires
        (override_exe matches Some(p) ==> (p.version is Some ==> p.is_file)),
    ensures
        windows_app(override_exe, nsis_exe, squirrel_dir_names).version is Some ==> windows_app(
            override_exe,
            nsis_exe,
            squirrel_dir_names,
        ).installed,
{
}

/// Trailing newlines of the release notes do not change the report.
pub proof fn notes_trailing_newlines_ignored(notes: Seq<char>)
    ensures
        notes_block(Some(notes + seq!['\n'])) == notes_block(Some(notes)),
{
    assert((notes + seq!['\n']).drop_last() =~= notes);
}

/// The decimal text of `n` is digits only and reads back as `n`.
proof fn lemma_decimal_reads_back(n: nat)
    ensures
        decimal(n).len() > 0,
        all_digits(decimal(n)),
        digits_value(decimal(n)) == n,
    decreases n,
{
    if n < 10 {
        assert(digit_value(digit_char(n)) == n);
        assert(decimal(n).drop_last() =~= Seq::<char>::empty());
        assert(digits_value(Seq::<char>::empty()) == 0);
    } else {
        lemma_decimal_reads_back(n / 10);
        let s = decimal(n);
        assert(s.drop_last() =~= decimal(n / 10));
        assert(s.last() == digit_char(n % 10));
        assert(digit_value(digit_char(n % 10)) == n % 10);
        vstd::arithmetic::div_mod::lemma_fundamental_div_mod(n as int, 10);
        assert(digits_value(s) == digits_value(s.drop_last()) * 10 + digit_value(s.last()));
        assert forall|i: int| 0 <= i < s.len() implies crate::text::is_digit(#[trigger] s[i]) by {
            if i < s.len() - 1 {
                assert(s[i] == decimal(n / 10)[i]);
            }
        }
    }
}

/// Text without a dot splits into itself alone.
proof fn lemma_split_without_dot(x: Seq<char>)
    requires
        forall|i: int| 0 <= i < x.len() ==> x[i] != '.',
    ensures
        split_char(x, '.') == seq![x],
{
    lemma_index_of_absent(x, '.');
}

/// A dot-free field followed by a dot splits off as the first field.
proof fn lemma_split_field(x: Seq<char>, y: Seq<char>)
    requires
        forall|i: int| 0 <= i < x.len() ==> x[i] != '.',
    ensures
        split_char(x + seq!['.'] + y, '.') == seq![x] + split_char(y, '.'),
{
    let t = x + seq!['.'] + y;
    assert forall|j: int| 0 <= j < x.len() implies t[j] != '.' by {
        assert(t[j] == x[j]);
    }
    assert(t[x.len() as int] == '.');
    lemma_index_of_found(t, '.', x.len() as int);
    assert(t.take(x.len() as int) =~= x);
    assert(t.skip(x.len() + 1int) =~= y);
}

/// The decimal text of a 16-bit field is one dot-free field reading back as it.
proof fn lemma_decimal_field(n: nat)
    requires
        n < 65536,
    ensures
        forall|i: int| 0 <= i < decimal(n).len() ==> decimal(n)[i] != '.',
        parse_u64(decimal(n)) == Some(n as u64),
{
    lemma_decimal_reads_back(n);
    let d = decimal(n);
    assert forall|i: int| 0 <= i < d.len() implies d[i] != '.' by {
        assert(crate::text::is_digit(d[i]));
    }
    assert(crate::text::is_digit(d[0]));
}

/// The version text written from a fixed file version reads back, field by
/// field, as the same four numbers (an omitted fourth field as 0), so such
/// versions sort by their numbers.
pub proof fn fixed_version_sorts_by_its_fields(ms: u32, ls: u32)
    ensures
        sort_key(fixed_version(ms, ls)) == ((ms / 65536) as u64, (ms % 65536) as u64, (ls
            / 65536) as u64, (ls % 65536) as u64),
{
    reveal_strlit(".");
    assert("."@ =~= seq!['.']);
    let a = decimal((ms / 65536) as nat);
    let b = decimal((ms % 65536) as nat);
    let c = decimal((ls / 65536) as nat);
    let d = decimal((ls % 65536) as nat);
    lemma_decimal_field((ms / 65536) as nat);
    lemma_decimal_field((ms % 65536) as nat);
    lemma_decimal_field((ls / 65536) as nat);
    lemma_decimal_field((ls % 65536) as nat);
    if ls % 65536 == 0 {
        assert(fixed_version(ms, ls) =~= a + seq!['.'] + (b + seq!['.'] + c));
        lemma_split_field(a, b + seq!['.'] + c);
        lemma_split_field(b, c);
        lemma_split_without_dot(c);
        let f = split_char(fixed_version(ms, ls), '.');
        assert(f =~= seq![a, b, c]);
        assert(field_value(f, 3) == 0);
    } else {
        assert(fixed_version(ms, ls) =~= a + seq!['.'] + (b + seq!['.'] + (c + seq!['.'] + d)));
        lemma_split_field(a, b + seq!['.'] + (c + seq!['.'] + d));
        lemma_split_field(b, c + seq!['.'] + d);
        lemma_split_field(c, d);
        lemma_split_without_dot(d);
        let f = split_char(fixed_version(ms, ls), '.');
        assert(f =~= seq![a, b, c, d]);
    }
}

// ----------------------------------------------------------------------
// What the choices are for
// ----------------------------------------------------------------------

/// Versions order field by field, numerically: the first field that differs
/// decides, and the greater number is the later version.
pub open spec fn numerically_after(a: SortKey, b: SortKey) -> bool {
    ||| a.0 > b.0
    ||| a.0 == b.0 && a.1 > b.1
    ||| a.0 == b.0 && a.1 == b.1 && a.2 > b.2
    ||| a.0 == b.0 && a.1 == b.1 && a.2 == b.2 && a.3 > b.3
}

/// The order by which Squirrel versions are compared is the numeric
/// field-by-field order: for instance (1, 2, 4, 0) comes after (1, 2, 3, 0).
pub proof fn key_order_is_numeric(a: SortKey, b: SortKey)
    ensures
        key_after(a, b) == numerically_after(a, b),
{
}

/// The Squirrel version chosen is that of one of the directories, and no
/// other Squirrel directory's key comes numerically after its key.
pub proof fn newest_squirrel_version_has_greatest_key(names: Seq<String>, v: Seq<char>)
    requires
        squirrel_newest(names) == Some(v),
    ensures
        exists|i: int|
            0 <= i < names.len() && squirrel_version(#[trigger] names[i]@) == Some(v),
        forall|j: int|
            0 <= j < names.len() && #[trigger] squirrel_version(names[j]@) is Some ==> !numerically_after(
                sort_key(squirrel_version(names[j]@)->0),
                sort_key(v),
            ),
{
    let (i, w) = choose|i: int, w: Seq<char>| is_newest_at(names, i, w);
    assert(is_newest_at(names, i, v));
    assert forall|j: int|
        0 <= j < names.len() && #[trigger] squirrel_version(names[j]@) is Some implies !numerically_after(
        sort_key(squirrel_version(names[j]@)->0),
        sort_key(v),
    ) by {
        assert(entry_key(names, j) == Some(sort_key(squirrel_version(names[j]@)->0)));
    }
}

/// An entry of `/opt` named `ZCode…` or `zcode…` counts as an installation.
pub proof fn opt_entry_with_either_prefix_counts(names: Seq<String>, i: int)
    requires
        0 <= i < names.len(),
        has_prefix(names[i]@, "zcode"@) || has_prefix(names[i]@, "ZCode"@),
    ensures
        opt_entry_installed(names),
{
    assert(has_prefix(names[i]@, "ZCode"@) || has_prefix(names[i]@, "zcode"@));
}

/// An `/opt` scan finds an installation only through an entry named `ZCode…`
/// or `zcode…`.
pub proof fn opt_entry_installed_needs_a_prefix(names: Seq<String>)
    requires
        opt_entry_installed(names),
    ensures
        exists|i: int|
            0 <= i < names.len() && (has_prefix(#[trigger] names[i]@, "zcode"@) || has_prefix(
                names[i]@,
                "ZCode"@,
            )),
{
    let i = choose|i: int|
        0 <= i < names.len() && (has_prefix(#[trigger] names[i]@, "ZCode"@) || has_prefix(
            names[i]@,
            "zcode"@,
        ));
    assert(has_prefix(names[i]@, "zcode"@) || has_prefix(names[i]@, "ZCode"@));
}

/// Removing one leading `v` and then one leading `V` removes exactly that
/// and nothing else.
pub proof fn strip_v_removes_only_the_prefix(s: Seq<char>)
    ensures
        s == strip_v_spec(s) || s == seq!['v'] + strip_v_spec(s) || s == seq!['V']
            + strip_v_spec(s) || s == seq!['v', 'V'] + strip_v_spec(s),
        s.len() > 0 && s[0] != 'v' && s[0] != 'V' ==> strip_v_spec(s) == s,
{
    if s.len() > 0 && s[0] == 'v' {
        let t = s.drop_first();
        if t.len() > 0 && t[0] == 'V' {
            assert(s =~= seq!['v', 'V'] + t.drop_first());
        } else {
            assert(s =~= seq!['v'] + t);
        }
    } else if s.len() > 0 && s[0] == 'V' {
        assert(s =~= seq!['V'] + s.drop_first());
    }
}

/// The installed application is up to date exactly when it is installed, its
/// version was read, and that version equals the manifest's once a leading
/// `v`/`V` is removed from each; a version that merely begins like the
/// other (`1.2.1` against `1.2.10`) is not the same version.
pub proof fn up_to_date_means_equal_versions(remote: Seq<char>, local: LocalAppView)
    ensures
        up_to_date(remote, local) == (local.installed && local.version is Some && strip_v_spec(
            local.version->0,
        ) == strip_v_spec(remote)),
        up_to_date(remote, local) ==> strip_v_spec(local.version->0).len() == strip_v_spec(
            remote,
        ).len(),
{
}

/// An explicitly given architecture decides the platform, whatever the
/// running machine's architecture: `darwin-`, `windows-` or `linux-`
/// followed by its canonical name.
pub proof fn explicit_arch_decides_platform(
    target: Seq<char>,
    arch: Seq<char>,
    native: Seq<char>,
    other_native: Seq<char>,
)
    requires
        arch_canonical(arch) is Some,
    ensures
        platform_spec(Some(target), Some(arch), native) == platform_spec(
            Some(target),
            Some(arch),
            other_native,
        ),
        (target == "mac"@ || target == "macos"@ || target == "darwin"@) ==> platform_spec(
            Some(target),
            Some(arch),
            native,
        ) == Ok::<Seq<char>, UpdateErrorView>("darwin-"@ + arch_canonical(arch)->0),
        (target == "windows"@ || target == "win"@) ==> platform_spec(
            Some(target),
            Some(arch),
            native,
        ) == Ok::<Seq<char>, UpdateErrorView>("windows-"@ + arch_canonical(arch)->0),
        target == "linux"@ ==> platform_spec(Some(target), Some(arch), native) == Ok::<
            Seq<char>,
            UpdateErrorView,
        >("linux-"@ + arch_canonical(arch)->0),
{
    reveal_strlit("mac");
    reveal_strlit("macos");
    reveal_strlit("darwin");
    reveal_strlit("windows");
    reveal_strlit("win");
    reveal_strlit("linux");
    assert("windows"@[0] != "mac"@[0]);
    assert("windows"@[0] != "macos"@[0]);
    assert("windows"@[0] != "darwin"@[0]);
    assert("win"@[0] != "mac"@[0]);
    assert("win"@[0] != "macos"@[0]);
    assert("win"@[0] != "darwin"@[0]);
    assert("linux"@[0] != "mac"@[0]);
    assert("linux"@[0] != "macos"@[0]);
    assert("linux"@[0] != "darwin"@[0]);
    assert("linux"@[0] != "windows"@[0]);
    assert("linux"@[0] != "win"@[0]);
}

/// A download address with `.dmg` anywhere in it is labelled `DMG`.
pub proof fn dmg_anywhere_is_labelled_dmg(u: Seq<char>, i: int)
    requires
        0 <= i,
        i + 4 <= u.len(),
        u.subrange(i, i + 4) == ".dmg"@,
    ensures
        url_kind(u) == "DMG"@,
{
    reveal_strlit(".dmg");
    assert(u.subrange(i, i + ".dmg"@.len()) == ".dmg"@);
}

/// Without `.dmg`, a download address with `.zip` anywhere in it is labelled `ZIP`.
pub proof fn zip_anywhere_is_labelled_zip(u: Seq<char>, i: int)
    requires
        0 <= i,
        i + 4 <= u.len(),
        u.subrange(i, i + 4) == ".zip"@,
        forall|j: int| 0 <= j && j + 4 <= u.len() ==> #[trigger] u.subrange(j, j + 4) != ".dmg"@,
    ensures
        url_kind(u) == "ZIP"@,
{
    reveal_strlit(".dmg");
    reveal_strlit(".zip");
    assert(u.subrange(i, i + ".zip"@.len()) == ".zip"@);
}

/// Without `.dmg` or `.zip`, a download address with `.exe` anywhere in it is
/// labelled `EXE`.
pub proof fn exe_anywhere_is_labelled_exe(u: Seq<char>, i: int)
    requires
        0 <= i,
        i + 4 <= u.len(),
        u.subrange(i, i + 4) == ".exe"@,
        forall|j: int| 0 <= j && j + 4 <= u.len() ==> #[trigger] u.subrange(j, j + 4) != ".dmg"@,
        forall|j: int| 0 <= j && j + 4 <= u.len() ==> #[trigger] u.subrange(j, j + 4) != ".zip"@,
    ensures
        url_kind(u) == "EXE"@,
{
    reveal_strlit(".dmg");
    reveal_strlit(".zip");
    reveal_strlit(".exe");
    assert(u.subrange(i, i + ".exe"@.len()) == ".exe"@);
}

} // verus!
