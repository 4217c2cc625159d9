//! Command-line options and the choice of where the manifest comes from.

use vstd::prelude::*;

use crate::error::{result_view, UpdateError, UpdateErrorView};
use crate::text::{has_prefix, text_equals};

verus! {

/// The endpoint queried when neither `--file` nor `--url` is given.
pub const DEFAULT_ENDPOINT: &'static str = "https://zcode.z.ai/api/v1/releases/electron/manifest";

/// The options of one invocation. Paths are held as text.
#[derive(Debug)]
pub struct Cli {
    /// Query target: `mac` (the default), `windows` or `linux`.
    pub target: Option<String>,
    /// Target architecture: `arm64`, `aarch64`, `x64`, `x86_64`, `amd64`.
    pub arch: Option<String>,
    /// Update channel: `preview` (the default) or `stable`.
    pub channel: Option<String>,
    /// A local YAML manifest to read instead of querying the network.
    pub file: Option<String>,
    /// An HTTP/HTTPS manifest address to query.
    pub url: Option<String>,
    /// Where the local application is installed.
    pub app: Option<String>,
}

/// [`Cli`] with its texts as character sequences.
pub struct CliView {
    pub target: Option<Seq<char>>,
    pub arch: Option<Seq<char>>,
    pub channel: Option<Seq<char>>,
    pub file: Option<Seq<char>>,
    pub url: Option<Seq<char>>,
    pub app: Option<Seq<char>>,
}

/// An optional text taken by view.
pub open spec fn opt_view(o: Option<String>) -> Option<Seq<char>> {
    match o {
        Some(s) => Some(s@),
        None => None,
    }
}

impl View for Cli {
    type V = CliView;

    open spec fn view(&self) -> CliView {
        CliView {
            target: opt_view(self.target),
            arch: opt_view(self.arch),
            channel: opt_view(self.channel),
            file: opt_view(self.file),
            url: opt_view(self.url),
            app: opt_view(self.app),
        }
    }
}

impl Default for Cli {
    fn default() -> (r: Cli)
        ensures
            r.target is None,
            r.arch is None,
            r.channel is None,
            r.file is None,
            r.url is None,
            r.app is None,
    {
        Cli { target: None, arch: None, channel: None, file: None, url: None, app: None }
    }
}

/// Where the manifest is read from.
#[derive(Debug, Clone, PartialEq, Eq)]
pub enum Source {
    /// A file on this machine.
    LocalFile(String),
    /// An HTTP/HTTPS address.
    Remote(String),
}

/// [`Source`] with its text as a character sequence.
pub enum SourceView {
    LocalFile(Seq<char>),
    Remote(Seq<char>),
}

impl View for Source {
    type V = SourceView;

    open spec fn view(&self) -> SourceView {
        match self {
            Source::LocalFile(p) => SourceView::LocalFile(p@),
            Source::Remote(u) => SourceView::Remote(u@),
        }
    }
}

/// The canonical name of an architecture alias.
pub open spec fn arch_canonical(a: Seq<char>) -> Option<Seq<char>> {
    if a == "arm64"@ || a == "aarch64"@ {
        Some("aarch64"@)
    } else if a == "x64"@ || a == "x86_64"@ || a == "amd64"@ {
        Some("x86_64"@)
    } else {
        None
    }
}

/// What [`normalize_arch`] gives for `a`.
pub open spec fn normalize_arch_spec(a: Seq<char>) -> Result<Seq<char>, UpdateErrorView> {
    match arch_canonical(a) {
        Some(c) => Ok(c),
        None => Err(UpdateErrorView::UnsupportedArch(a)),
    }
}

/// What [`channel_id`] gives for `c`.
pub open spec fn channel_id_spec(c: Seq<char>) -> Result<Seq<char>, UpdateErrorView> {
    if c == "preview"@ {
        Ok("3"@)
    } else if c == "stable"@ {
        Ok("1"@)
    } else {
        Err(UpdateErrorView::UnsupportedChannel(c))
    }
}

/// A `&str` result taken by view.
pub open spec fn str_result_view(r: Result<&str, UpdateError>) -> Result<Seq<char>, UpdateErrorView> {
    match r {
        Ok(s) => Ok(s@),
        Err(e) => Err(e@),
    }
}

/// The architecture used for a platform: the given one, else `default`.
pub open spec fn arch_or(arch: Option<Seq<char>>, default: Seq<char>) -> Result<Seq<char>, UpdateErrorView> {
    match arch {
        Some(a) => normalize_arch_spec(a),
        None => normalize_arch_spec(default),
    }
}

/// `prefix` followed by the architecture, or the architecture's error.
pub open spec fn platform_with(prefix: Seq<char>, arch: Result<Seq<char>, UpdateErrorView>) -> Result<
    Seq<char>,
    UpdateErrorView,
> {
    match arch {
        Ok(a) => Ok(prefix + a),
        Err(e) => Err(e),
    }
}

/// The `platform=` value of the default endpoint, for a target and architecture
/// on a machine whose own architecture is `native`.
pub open spec fn platform_spec(target: Option<Seq<char>>, arch: Option<Seq<char>>, native: Seq<char>) -> Result<
    Seq<char>,
    UpdateErrorView,
> {
    let t = match target {
        Some(t) => t,
        None => "mac"@,
    };
    if t == "mac"@ || t == "macos"@ || t == "darwin"@ {
        platform_with("darwin-"@, arch_or(arch, native))
    } else if t == "windows"@ || t == "win"@ {
        platform_with("windows-"@, arch_or(arch, "x86_64"@))
    } else if t == "linux"@ {
        platform_with("linux-"@, arch_or(arch, native))
    } else {
        Err(UpdateErrorView::UnsupportedTarget(t))
    }
}

/// An address that starts with `http://` or `https://`.
pub open spec fn is_http_url(u: Seq<char>) -> bool {
    has_prefix(u, "http://"@) || has_prefix(u, "https://"@)
}

/// The default endpoint's address for a platform and a channel id.
pub open spec fn endpoint_url(platform: Seq<char>, id: Seq<char>) -> Seq<char> {
    DEFAULT_ENDPOINT@ + "?platform="@ + platform + "&channel="@ + id
}

/// Where the manifest comes from: `--file` first, then `--url`, then the
/// default endpoint for `--target`/`--arch`/`--channel`.
pub open spec fn resolve_source_spec(cli: CliView, native: Seq<char>) -> Result<SourceView, UpdateErrorView> {
    match cli.file {
        Some(f) => Ok(SourceView::LocalFile(f)),
        None => match cli.url {
            Some(u) => if is_http_url(u) {
                Ok(SourceView::Remote(u))
            } else {
                Err(UpdateErrorView::UrlNotHttp)
            },
            None => match platform_spec(cli.target, cli.arch, native) {
                Err(e) => Err(e),
                Ok(p) => {
                    let c = match cli.channel {
                        Some(c) => c,
                        None => "preview"@,
                    };
                    match channel_id_spec(c) {
                        Err(e) => Err(e),
                        Ok(id) => Ok(SourceView::Remote(endpoint_url(p, id))),
                    }
                },
            },
        },
    }
}

/// The text shown as the manifest's origin.
pub open spec fn source_label_spec(s: SourceView) -> Seq<char> {
    match s {
        SourceView::LocalFile(p) => p,
        SourceView::Remote(u) => u,
    }
}

/// Maps an architecture alias to `aarch64` or `x86_64`.
pub fn normalize_arch(input: &str) -> (r: Result<&'static str, UpdateError>)
    ensures
        str_result_view(r) == normalize_arch_spec(input@),
{
    if text_equals(input, "arm64") || text_equals(input, "aarch64") {
        Ok("aarch64")
    } else if text_equals(input, "x64") || text_equals(input, "x86_64") || text_equals(
        input,
        "amd64",
    ) {
        Ok("x86_64")
    } else {
        Err(UpdateError::UnsupportedArch(String::from_str(input)))
    }
}

/// Maps a channel name to the id the server expects.
pub fn channel_id(channel: &str) -> (r: Result<&'static str, UpdateError>)
    ensures
        str_result_view(r) == channel_id_spec(channel@),
{
    if text_equals(channel, "preview") {
        Ok("3")
    } else if text_equals(channel, "stable") {
        Ok("1")
    } else {
        Err(UpdateError::UnsupportedChannel(String::from_str(channel)))
    }
}

/// The architecture for a platform: `arch` when given, else `default`.
fn chosen_arch(arch: &Option<String>, default: &str) -> (r: Result<&'static str, UpdateError>)
    ensures
        str_result_view(r) == arch_or(opt_view(*arch), default@),
{
    match arch {
        Some(a) => normalize_arch(a.as_str()),
        None => normalize_arch(default),
    }
}

/// The `platform=` value for the default endpoint; `native_arch` is the
/// architecture of the running machine.
pub fn platform_of(cli: &Cli, native_arch: &str) -> (r: Result<String, UpdateError>)
    ensures
        result_view(r) == platform_spec(cli@.target, cli@.arch, native_arch@),
{
    let target: &str = match &cli.target {
        Some(t) => t.as_str(),
        None => "mac",
    };
    if text_equals(target, "mac") || text_equals(target, "macos") || text_equals(target, "darwin") {
        let arch = chosen_arch(&cli.arch, native_arch)?;
        Ok(String::from_str("darwin-").concat(arch))
    } else if text_equals(target, "windows") || text_equals(target, "win") {
        let arch = chosen_arch(&cli.arch, "x86_64")?;
        Ok(String::from_str("windows-").concat(arch))
    } else if text_equals(target, "linux") {
        let arch = chosen_arch(&cli.arch, native_arch)?;
        Ok(String::from_str("linux-").concat(arch))
    } else {
        Err(UpdateError::UnsupportedTarget(String::from_str(target)))
    }
}

/// Whether `url` starts with `http://` or `https://`.
pub fn is_http_address(url: &str) -> (r: bool)
    ensures
        r == is_http_url(url@),
{
    let v = crate::text::chars_of(url);
    let http = crate::text::chars_of("http://");
    let https = crate::text::chars_of("https://");
    let r = crate::text::region_has_prefix(&v, 0, v.len(), &http)
        || crate::text::region_has_prefix(&v, 0, v.len(), &https);
    assert(v@.subrange(0, v.len() as int) =~= v@);
    r
}

/// Decides where the manifest comes from (`--file` > `--url` > default
/// endpoint); `native_arch` is the architecture of the running machine,
/// used when `--arch` is absent for `mac` and `linux`.
pub fn resolve_source(cli: &Cli, native_arch: &str) -> (r: Result<Source, UpdateError>)
    ensures
        result_view(r) == resolve_source_spec(cli@, native_arch@),
{
    if let Some(file) = &cli.file {
        return Ok(Source::LocalFile(file.clone()));
    }
    if let Some(url) = &cli.url {
        if !is_http_address(url.as_str()) {
            return Err(UpdateError::UrlNotHttp);
        }
        return Ok(Source::Remote(url.clone()));
    }
    let platform = platform_of(cli, native_arch)?;
    let channel: &str = match &cli.channel {
        Some(c) => c.as_str(),
        None => "preview",
    };
    let id = channel_id(channel)?;
    let url = String::from_str(DEFAULT_ENDPOINT).concat("?platform=").concat(
        platform.as_str(),
    ).concat("&channel=").concat(id);
    Ok(Source::Remote(url))
}

/// The text that names the manifest's origin in the report.
pub fn source_label(source: &Source) -> (r: String)
    ensures
        r@ == source_label_spec(source@),
{
    match source {
        Source::LocalFile(p) => p.clone(),
        Source::Remote(u) => u.clone(),
    }
}

} // verus!
