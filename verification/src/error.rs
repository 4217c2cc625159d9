//! The errors that stop an update query, and the text shown for each.

use vstd::prelude::*;

verus! {

/// Why an update query could not be answered.
#[derive(Debug, Clone, PartialEq, Eq)]
pub enum UpdateError {
    /// `--arch` (or the running machine's architecture) is not one we know.
    UnsupportedArch(String),
    /// `--channel` is neither `preview` nor `stable`.
    UnsupportedChannel(String),
    /// `--target` is not a platform we publish for.
    UnsupportedTarget(String),
    /// `--url` does not start with `http://` or `https://`.
    UrlNotHttp,
    /// The manifest text is not YAML of the expected shape; the parser's own words.
    ManifestYaml(String),
    /// The manifest has no (or a blank) `version`.
    MissingVersion,
    /// The manifest names no download link at all.
    MissingDownloadUrl,
    /// The manifest file could not be read.
    ReadFile { path: String, detail: String },
    /// The manifest could not be downloaded.
    Download(String),
    /// The manifest response body could not be read.
    ReadResponse(String),
}

/// [`UpdateError`] with its texts as character sequences.
pub enum UpdateErrorView {
    UnsupportedArch(Seq<char>),
    UnsupportedChannel(Seq<char>),
    UnsupportedTarget(Seq<char>),
    UrlNotHttp,
    ManifestYaml(Seq<char>),
    MissingVersion,
    MissingDownloadUrl,
    ReadFile { path: Seq<char>, detail: Seq<char> },
    Download(Seq<char>),
    ReadResponse(Seq<char>),
}

impl View for UpdateError {
    type V = UpdateErrorView;

    open spec fn view(&self) -> UpdateErrorView {
        match self {
            UpdateError::UnsupportedArch(a) => UpdateErrorView::UnsupportedArch(a@),
            UpdateError::UnsupportedChannel(c) => UpdateErrorView::UnsupportedChannel(c@),
            UpdateError::UnsupportedTarget(t) => UpdateErrorView::UnsupportedTarget(t@),
            UpdateError::UrlNotHttp => UpdateErrorView::UrlNotHttp,
            UpdateError::ManifestYaml(d) => UpdateErrorView::ManifestYaml(d@),
            UpdateError::MissingVersion => UpdateErrorView::MissingVersion,
            UpdateError::MissingDownloadUrl => UpdateErrorView::MissingDownloadUrl,
            UpdateError::ReadFile { path, detail } => UpdateErrorView::ReadFile {
                path: path@,
                detail: detail@,
            },
            UpdateError::Download(d) => UpdateErrorView::Download(d@),
            UpdateError::ReadResponse(d) => UpdateErrorView::ReadResponse(d@),
        }
    }
}

/// The user-facing text of an error.
pub open spec fn error_message(e: UpdateErrorView) -> Seq<char> {
    match e {
        UpdateErrorView::UnsupportedArch(a) => "不支持的架构："@ + a,
        UpdateErrorView::UnsupportedChannel(c) => "不支持的更新通道："@ + c,
        UpdateErrorView::UnsupportedTarget(t) => "不支持的目标："@ + t,
        UpdateErrorView::UrlNotHttp => "--url 仅支持 HTTP/HTTPS 地址"@,
        UpdateErrorView::ManifestYaml(d) => "解析 Manifest YAML 失败: "@ + d,
        UpdateErrorView::MissingVersion => "Manifest 中缺少 version"@,
        UpdateErrorView::MissingDownloadUrl => "Manifest 中缺少下载链接"@,
        UpdateErrorView::ReadFile { path, detail } => "无法读取文件："@ + path + ": "@ + detail,
        UpdateErrorView::Download(d) => "下载 Manifest 失败："@ + d,
        UpdateErrorView::ReadResponse(d) => "读取 Manifest 响应失败: "@ + d,
    }
}

/// A result with its success value and its error both taken by view.
pub open spec fn result_view<T: View>(r: Result<T, UpdateError>) -> Result<T::V, UpdateErrorView> {
    match r {
        Ok(v) => Ok(v@),
        Err(e) => Err(e@),
    }
}

impl UpdateError {
    /// The text shown to the user for this error.
    pub fn message(&self) -> (r: String)
        ensures
            r@ == error_message(self@),
    {
        match self {
            UpdateError::UnsupportedArch(a) => String::from_str("不支持的架构：").concat(a.as_str()),
            UpdateError::UnsupportedChannel(c) => String::from_str("不支持的更新通道：").concat(
                c.as_str(),
            ),
            UpdateError::UnsupportedTarget(t) => String::from_str("不支持的目标：").concat(t.as_str()),
            UpdateError::UrlNotHttp => String::from_str("--url 仅支持 HTTP/HTTPS 地址"),
            UpdateError::ManifestYaml(d) => String::from_str("解析 Manifest YAML 失败: ").concat(
                d.as_str(),
            ),
            UpdateError::MissingVersion => String::from_str("Manifest 中缺少 version"),
            UpdateError::MissingDownloadUrl => String::from_str("Manifest 中缺少下载链接"),
            UpdateError::ReadFile { path, detail } => String::from_str("无法读取文件：").concat(
                path.as_str(),
            ).concat(": ").concat(detail.as_str()),
            UpdateError::Download(d) => String::from_str("下载 Manifest 失败：").concat(d.as_str()),
            UpdateError::ReadResponse(d) => String::from_str("读取 Manifest 响应失败: ").concat(
                d.as_str(),
            ),
        }
    }
}

} // verus!
