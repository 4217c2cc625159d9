//! The report shown to the user: version comparison, download link labels,
//! release dates and the full text.

use vstd::prelude::*;

use crate::local::{LocalApp, LocalAppView};
use crate::manifest::{Manifest, ManifestView};
use crate::text::{
    chars_of, contains_text, region_trim_end_char, strip_char, substring, text_contains,
    text_equals, trim_end_char,
};

verus! {

// ----------------------------------------------------------------------
// Version comparison
// ----------------------------------------------------------------------

/// A version without one leading `v`, then without one leading `V`.
pub open spec fn strip_v_spec(v: Seq<char>) -> Seq<char> {
    strip_char(strip_char(v, 'v'), 'V')
}

/// Removes at most one leading `v`, then at most one leading `V`.
pub fn strip_v(version: &str) -> (r: &str)
    ensures
        r@ == strip_v_spec(version@),
{
    let n: usize = version.unicode_len();
    let mut start: usize = 0;
    if start < n && version.get_char(start) == 'v' {
        start = start + 1;
    }
    if start < n && version.get_char(start) == 'V' {
        start = start + 1;
    }
    let r = version.substring_char(start, n);
    proof {
        let s = version@;
        let a = strip_char(s, 'v');
        if s.len() > 0 && s[0] == 'v' {
            assert(a =~= s.subrange(1, n as int));
        } else {
            assert(a =~= s.subrange(0, n as int));
        }
        assert(r@ =~= strip_v_spec(s));
    }
    r
}

/// The installed application is the manifest's version: both versions agree
/// once a leading `v`/`V` is removed. An installed application whose version
/// could not be read is not up to date.
pub open spec fn up_to_date(remote: Seq<char>, local: LocalAppView) -> bool {
    local.installed && match local.version {
        Some(v) => strip_v_spec(v) == strip_v_spec(remote),
        None => false,
    }
}

/// Whether the local application already has the manifest's version.
pub fn is_up_to_date(remote_version: &str, local: &LocalApp) -> (r: bool)
    ensures
        r == up_to_date(remote_version@, local@),
{
    if !local.installed {
        return false;
    }
    match &local.version {
        Some(v) => text_equals(strip_v(v.as_str()), strip_v(remote_version)),
        None => false,
    }
}

// ----------------------------------------------------------------------
// Download links
// ----------------------------------------------------------------------

/// The label of a download address, by the extension found anywhere in it.
pub open spec fn url_kind(u: Seq<char>) -> Seq<char> {
    if contains_text(u, ".dmg"@) {
        "DMG"@
    } else if contains_text(u, ".zip"@) {
        "ZIP"@
    } else if contains_text(u, ".exe"@) {
        "EXE"@
    } else {
        "FILE"@
    }
}

/// Labels a download address: `DMG`, `ZIP`, `EXE` (first match wins) or `FILE`.
pub fn classify_url(url: &str) -> (r: &'static str)
    ensures
        r@ == url_kind(url@),
{
    let u = chars_of(url);
    if text_contains(&u, &chars_of(".dmg")) {
        "DMG"
    } else if text_contains(&u, &chars_of(".zip")) {
        "ZIP"
    } else if text_contains(&u, &chars_of(".exe")) {
        "EXE"
    } else {
        "FILE"
    }
}

/// `n` spaces.
pub open spec fn spaces(n: nat) -> Seq<char> {
    Seq::new(n, |i: int| ' ')
}

/// `k` left-aligned in a column four characters wide.
pub open spec fn pad_four(k: Seq<char>) -> Seq<char> {
    if k.len() < 4 {
        k + spaces((4 - k.len()) as nat)
    } else {
        k
    }
}

/// The report line of one download address.
pub open spec fn url_line(u: Seq<char>) -> Seq<char> {
    "  "@ + pad_four(url_kind(u)) + " "@ + u + "\n"@
}

/// The report lines of the download addresses, in order.
pub open spec fn url_lines(us: Seq<Seq<char>>) -> Seq<char>
    decreases us.len(),
{
    if us.len() == 0 {
        Seq::empty()
    } else {
        url_lines(us.drop_last()) + url_line(us.last())
    }
}

/// The label of `url` in its four-wide column.
fn padded_kind(url: &str) -> (r: &'static str)
    ensures
        r@ == pad_four(url_kind(url@)),
{
    let k = classify_url(url);
    proof {
        reveal_strlit("DMG");
        reveal_strlit("ZIP");
        reveal_strlit("EXE");
        reveal_strlit("FILE");
        reveal_strlit("DMG ");
        reveal_strlit("ZIP ");
        reveal_strlit("EXE ");
        assert("DMG"@ + spaces(1) =~= "DMG "@);
        assert("ZIP"@ + spaces(1) =~= "ZIP "@);
        assert("EXE"@ + spaces(1) =~= "EXE "@);
    }
    if text_equals(k, "DMG") {
        "DMG "
    } else if text_equals(k, "ZIP") {
        "ZIP "
    } else if text_equals(k, "EXE") {
        "EXE "
    } else {
        "FILE"
    }
}

// ----------------------------------------------------------------------
// Release dates
// ----------------------------------------------------------------------

/// A time zone, as the jiff crate holds it.
#[verifier::external_type_specification]
#[verifier::external_body]
pub struct ExTimeZone(jiff::tz::TimeZone);

/// Whether jiff reads `raw` as an RFC 3339 / ISO 8601 timestamp with an offset.
pub uninterp spec fn timestamp_parses(raw: Seq<char>) -> bool;

/// The timestamp `raw` in the zone `tz`, formatted by jiff's `strftime`
/// with the format `format` (meaningful where `timestamp_parses(raw)`).
pub uninterp spec fn zoned_text(raw: Seq<char>, tz: jiff::tz::TimeZone, format: Seq<char>) -> Seq<
    char,
>;

/// Reads `raw` with `<jiff::Timestamp as FromStr>::from_str`, places it in a
/// copy of `tz` with `jiff::Timestamp::to_zoned` and formats it with
/// `jiff::Zoned::strftime(format)`. The contract claims that it succeeds
/// exactly when `timestamp_parses` holds of the text, and that the text is
/// the one named by `zoned_text` for this text, zone and format; which
/// instant and which digits, jiff decides.
#[verifier::external_body]
fn timestamp_text_in_zone(raw: &str, tz: &jiff::tz::TimeZone, format: &str) -> (r: Option<
    String,
>)
    ensures
        r is Some == timestamp_parses(raw@),
        r matches Some(s) ==> s@ == zoned_text(raw@, *tz, format@),
{
    let ts = raw.parse::<jiff::Timestamp>().ok()?;
    Some(ts.to_zoned(tz.clone()).strftime(format).to_string())
}

/// The format in which release dates are shown.
pub const RELEASE_DATE_FORMAT: &'static str = "%Y-%m-%d %H:%M:%S";

/// `jiff::tz::TimeZone::system`: the machine's time zone (UTC-like when it
/// cannot be found). Nothing is claimed of it: it depends on the machine.
#[verifier::external_body]
fn system_time_zone() -> jiff::tz::TimeZone {
    jiff::tz::TimeZone::system()
}

/// An ISO 8601 timestamp shown as `%Y-%m-%d %H:%M:%S` in `tz`; `None` when
/// `raw` is not a timestamp (a bare date, an empty string, …).
pub fn format_release_date_in(raw: &str, tz: &jiff::tz::TimeZone) -> (r: Option<String>)
    ensures
        r is Some == timestamp_parses(raw@),
        r matches Some(s) ==> s@ == zoned_text(raw@, *tz, "%Y-%m-%d %H:%M:%S"@),
{
    timestamp_text_in_zone(raw, tz, RELEASE_DATE_FORMAT)
}

/// How a release date is shown in the zone `tz`: formatted when it is a
/// timestamp, else as given.
pub open spec fn release_date_text(raw: Seq<char>, tz: jiff::tz::TimeZone) -> Seq<char> {
    if timestamp_parses(raw) {
        zoned_text(raw, tz, "%Y-%m-%d %H:%M:%S"@)
    } else {
        raw
    }
}

/// A release date in the machine's time zone; the input unchanged when it
/// is not a timestamp.
pub fn format_release_date(raw: &str) -> (r: String)
    ensures
        exists|tz: jiff::tz::TimeZone| r@ == release_date_text(raw@, tz),
        !timestamp_parses(raw@) ==> r@ == raw@,
{
    let tz = system_time_zone();
    let r = match format_release_date_in(raw, &tz) {
        Some(s) => s,
        None => String::from_str(raw),
    };
    assert(r@ == release_date_text(raw@, tz));
    r
}

// ----------------------------------------------------------------------
// The report
// ----------------------------------------------------------------------

/// The single line shown when the installed version is the latest.
pub open spec fn up_to_date_text(local_version: Seq<char>) -> Seq<char> {
    "✅ 当前已是最新版本："@ + local_version + "，暂无更新。\n"@
}

/// The lines about the local application.
pub open spec fn local_block(local: LocalAppView) -> Seq<char> {
    if local.installed {
        "🎉 发现新版本！\n"@ + "本地版本："@ + (match local.version {
            Some(v) => v,
            None => Seq::empty(),
        }) + "\n"@
    } else {
        "ℹ️ 未检测到本地 ZCode 应用，以下为最新版本信息\n"@
            + "提示：如已安装在其它位置，请使用 --app 指定路径\n"@
    }
}

/// The release name line, when there is a name.
pub open spec fn name_block(name: Option<Seq<char>>) -> Seq<char> {
    match name {
        Some(n) => "名称："@ + n + "\n"@,
        None => Seq::empty(),
    }
}

/// The release date line, when there is a date to show.
pub open spec fn date_block(date: Option<Seq<char>>) -> Seq<char> {
    match date {
        Some(d) => "日期："@ + d + "\n"@,
        None => Seq::empty(),
    }
}

/// The release notes without their trailing newlines and with one newline,
/// or a placeholder.
pub open spec fn notes_block(notes: Option<Seq<char>>) -> Seq<char> {
    match notes {
        Some(n) => trim_end_char(n, '\n') + "\n"@,
        None => "（Manifest 未提供更新日志）\n"@,
    }
}

/// The full report of a manifest read from `label`, for the local
/// application `local`, with the release date shown as `date`.
pub open spec fn report_text(
    m: ManifestView,
    label: Seq<char>,
    local: LocalAppView,
    date: Option<Seq<char>>,
) -> Seq<char> {
    "\n"@ + "ZCode 更新信息\n"@ + "=============\n"@ + local_block(local) + "最新版本："@ + m.version
        + "\n"@ + name_block(m.release_name) + date_block(date) + "来源："@ + label + "\n"@ + "\n"@
        + "下载链接：\n"@ + url_lines(m.urls) + "\n"@ + "更新日志：\n"@ + notes_block(
        m.release_notes,
    )
}

/// The date line's text for an optional raw release date, in the zone `tz`.
pub open spec fn shown_date(raw: Option<Seq<char>>, tz: jiff::tz::TimeZone) -> Option<Seq<char>> {
    match raw {
        Some(r) => Some(release_date_text(r, tz)),
        None => None,
    }
}

/// The line shown when the installed version is the latest.
pub fn render_up_to_date(local_version: &str) -> (r: String)
    ensures
        r@ == up_to_date_text(local_version@),
{
    String::from_str("✅ 当前已是最新版本：").concat(local_version).concat("，暂无更新。\n")
}

fn local_lines(local: &LocalApp) -> (r: String)
    ensures
        r@ == local_block(local@),
{
    if local.installed {
        let v: &str = match &local.version {
            Some(v) => v.as_str(),
            None => "",
        };
        proof {
            reveal_strlit("");
        }
        String::from_str("🎉 发现新版本！\n").concat("本地版本：").concat(v).concat("\n")
    } else {
        String::from_str("ℹ️ 未检测到本地 ZCode 应用，以下为最新版本信息\n").concat(
            "提示：如已安装在其它位置，请使用 --app 指定路径\n",
        )
    }
}

fn name_lines(name: &Option<String>) -> (r: String)
    ensures
        r@ == name_block(crate::cli::opt_view(*name)),
{
    match name {
        Some(n) => String::from_str("名称：").concat(n.as_str()).concat("\n"),
        None => String::new(),
    }
}

fn date_lines(date: &Option<String>) -> (r: String)
    ensures
        r@ == date_block(crate::cli::opt_view(*date)),
{
    match date {
        Some(d) => String::from_str("日期：").concat(d.as_str()).concat("\n"),
        None => String::new(),
    }
}

fn notes_lines(notes: &Option<String>) -> (r: String)
    ensures
        r@ == notes_block(crate::cli::opt_view(*notes)),
{
    match notes {
        Some(n) => {
            let v = chars_of(n.as_str());
            let k: usize = region_trim_end_char(&v, 0, v.len(), '\n');
            assert(v@.subrange(0, v.len() as int) =~= n@);
            substring(n.as_str(), 0, k).concat("\n")
        },
        None => String::from_str("（Manifest 未提供更新日志）\n"),
    }
}

fn url_list_lines(urls: &Vec<String>) -> (r: String)
    ensures
        r@ == url_lines(crate::manifest::strings_view(urls@)),
{
    let mut s = String::new();
    for i in 0..urls.len()
        invariant
            s@ == url_lines(crate::manifest::strings_view(urls@).take(i as int)),
    {
        let ghost us = crate::manifest::strings_view(urls@);
        proof {
            assert(us.take(i + 1).drop_last() =~= us.take(i as int));
            assert(us.take(i + 1).last() == urls@[i as int]@);
        }
        s.append("  ");
        s.append(padded_kind(urls[i].as_str()));
        s.append(" ");
        s.append(urls[i].as_str());
        s.append("\n");
    }
    assert(crate::manifest::strings_view(urls@).take(urls.len() as int) =~= crate::manifest::strings_view(urls@));
    s
}

/// The full report, with the release date shown as `shown_date`.
pub fn render_report(m: &Manifest, source_label: &str, local: &LocalApp, shown_date: &Option<
    String,
>) -> (r: String)
    ensures
        r@ == report_text(m@, source_label@, local@, crate::cli::opt_view(*shown_date)),
{
    let mut s = String::from_str("\n");
    s.append("ZCode 更新信息\n");
    s.append("=============\n");
    s.append(local_lines(local).as_str());
    s.append("最新版本：");
    s.append(m.version.as_str());
    s.append("\n");
    s.append(name_lines(&m.release_name).as_str());
    s.append(date_lines(shown_date).as_str());
    s.append("来源：");
    s.append(source_label);
    s.append("\n");
    s.append("\n");
    s.append("下载链接：\n");
    s.append(url_list_lines(&m.urls).as_str());
    s.append("\n");
    s.append("更新日志：\n");
    s.append(notes_lines(&m.release_notes).as_str());
    s
}

/// The full report: what is installed, the latest version, its name and
/// date (in the machine's time zone), where the manifest came from, the
/// labelled download links and the release notes.
pub fn render(m: &Manifest, source_label: &str, local: &LocalApp) -> (r: String)
    ensures
        exists|tz: jiff::tz::TimeZone|
            r@ == report_text(m@, source_label@, local@, shown_date(m@.release_date, tz)),
{
    let shown: Option<String> = match &m.release_date {
        Some(raw) => Some(format_release_date(raw.as_str())),
        None => None,
    };
    let r = render_report(m, source_label, local, &shown);
    proof {
        let tz = match m@.release_date {
            Some(raw) => choose|tz: jiff::tz::TimeZone|
                shown->0@ == release_date_text(raw, tz),
            None => vstd::pervasive::arbitrary::<jiff::tz::TimeZone>(),
        };
        assert(crate::cli::opt_view(shown) == shown_date(m@.release_date, tz));
    }
    r
}

/// What the query shows: the single up-to-date line when the installed
/// version is the manifest's, else the full report.
pub fn report(m: &Manifest, source_label: &str, local: &LocalApp) -> (r: String)
    ensures
        up_to_date(m@.version, local@) ==> r@ == up_to_date_text(local@.version->0),
        !up_to_date(m@.version, local@) ==> exists|tz: jiff::tz::TimeZone|
            r@ == report_text(m@, source_label@, local@, shown_date(m@.release_date, tz)),
{
    if is_up_to_date(m.version.as_str(), local) {
        match &local.version {
            Some(v) => render_up_to_date(v.as_str()),
            None => render_up_to_date(""),
        }
    } else {
        render(m, source_label, local)
    }
}

} // verus!
