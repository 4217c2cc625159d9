//! The update manifest: the fields as the server sends them, and the checked
//! manifest built from them.

use vstd::prelude::*;

use crate::cli::opt_view;
use crate::error::{result_view, UpdateError, UpdateErrorView};
use crate::text::{is_blank, text_is_blank};

verus! {

/// One element of the manifest's `files` list; only its address matters.
#[derive(Debug, Clone)]
pub struct FileEntry {
    pub url: String,
}

/// The manifest's fields as read from YAML; any of them may be missing.
#[derive(Debug)]
pub struct RawManifest {
    pub release_name: Option<String>,
    pub release_date: Option<String>,
    pub version: Option<String>,
    pub files: Option<Vec<FileEntry>>,
    /// The download address used when `files` yields none.
    pub path: Option<String>,
    pub release_notes: Option<String>,
}

/// A checked manifest.
#[derive(Debug)]
pub struct Manifest {
    pub version: String,
    pub release_name: Option<String>,
    pub release_date: Option<String>,
    /// Download addresses, each once, in the order first given.
    pub urls: Vec<String>,
    pub release_notes: Option<String>,
}

/// [`Manifest`] with its texts as character sequences.
pub struct ManifestView {
    pub version: Seq<char>,
    pub release_name: Option<Seq<char>>,
    pub release_date: Option<Seq<char>>,
    pub urls: Seq<Seq<char>>,
    pub release_notes: Option<Seq<char>>,
}

/// A sequence of strings taken by view.
pub open spec fn strings_view(v: Seq<String>) -> Seq<Seq<char>> {
    v.map_values(|s: String| s@)
}

impl View for Manifest {
    type V = ManifestView;

    open spec fn view(&self) -> ManifestView {
        ManifestView {
            version: self.version@,
            release_name: opt_view(self.release_name),
            release_date: opt_view(self.release_date),
            urls: strings_view(self.urls@),
            release_notes: opt_view(self.release_notes),
        }
    }
}

/// The addresses of the `files` entries, in order.
pub open spec fn file_urls(files: Option<Vec<FileEntry>>) -> Seq<Seq<char>> {
    match files {
        Some(v) => v@.map_values(|e: FileEntry| e.url@),
        None => Seq::empty(),
    }
}

/// The non-empty addresses of `us`, each kept at its first occurrence.
pub open spec fn dedup_urls(us: Seq<Seq<char>>) -> Seq<Seq<char>>
    decreases us.len(),
{
    if us.len() == 0 {
        Seq::empty()
    } else {
        let prev = dedup_urls(us.drop_last());
        if us.last().len() == 0 || prev.contains(us.last()) {
            prev
        } else {
            prev.push(us.last())
        }
    }
}

/// The download addresses of a manifest: those of `files`, deduplicated;
/// when there are none, the top-level `path` unless it is blank.
pub open spec fn download_urls(raw: RawManifest) -> Seq<Seq<char>> {
    let d = dedup_urls(file_urls(raw.files));
    if d.len() > 0 {
        d
    } else {
        match raw.path {
            Some(p) => if is_blank(p@) {
                Seq::empty()
            } else {
                seq![p@]
            },
            None => Seq::empty(),
        }
    }
}

/// The manifest that raw fields make: an error when the version is missing
/// or blank, else when there is no download address.
pub open spec fn from_raw_spec(raw: RawManifest) -> Result<ManifestView, UpdateErrorView> {
    match raw.version {
        None => Err(UpdateErrorView::MissingVersion),
        Some(v) => if is_blank(v@) {
            Err(UpdateErrorView::MissingVersion)
        } else if download_urls(raw).len() == 0 {
            Err(UpdateErrorView::MissingDownloadUrl)
        } else {
            Ok(
                ManifestView {
                    version: v@,
                    release_name: opt_view(raw.release_name),
                    release_date: opt_view(raw.release_date),
                    urls: download_urls(raw),
                    release_notes: opt_view(raw.release_notes),
                },
            )
        },
    }
}

/// A manifest fit to be shown: a non-blank version and at least one download
/// address, none of them empty and none twice.
pub open spec fn manifest_wf(m: ManifestView) -> bool {
    &&& !is_blank(m.version)
    &&& m.urls.len() > 0
    &&& forall|i: int| 0 <= i < m.urls.len() ==> #[trigger] m.urls[i].len() > 0
    &&& m.urls.no_duplicates()
}

/// Deduplication keeps every non-empty address exactly once and adds none.
pub proof fn lemma_dedup_urls(us: Seq<Seq<char>>)
    ensures
        dedup_urls(us).no_duplicates(),
        forall|i: int|
            0 <= i < dedup_urls(us).len() ==> #[trigger] dedup_urls(us)[i].len() > 0
                && us.contains(dedup_urls(us)[i]),
        forall|i: int|
            0 <= i < us.len() && #[trigger] us[i].len() > 0 ==> dedup_urls(us).contains(us[i]),
    decreases us.len(),
{
    if us.len() > 0 {
        let prev = dedup_urls(us.drop_last());
        lemma_dedup_urls(us.drop_last());
        assert forall|i: int| 0 <= i < prev.len() implies us.contains(prev[i]) by {
            let k = choose|k: int| 0 <= k < us.drop_last().len() && us.drop_last()[k] == prev[i];
            assert(us[k] == prev[i]);
        }
        assert forall|i: int| 0 <= i < us.len() && #[trigger] us[i].len() > 0 implies dedup_urls(
            us,
        ).contains(us[i]) by {
            if i < us.len() - 1 {
                assert(us.drop_last()[i] == us[i]);
                let k = choose|k: int| 0 <= k < prev.len() && prev[k] == us[i];
                assert(dedup_urls(us)[k] == us[i]);
            } else if !prev.contains(us.last()) {
                assert(dedup_urls(us)[prev.len() as int] == us[i]);
            }
        }
        if !(us.last().len() == 0 || prev.contains(us.last())) {
            assert(us.contains(us.last())) by {
                assert(us[us.len() - 1] == us.last());
            }
        }
    }
}

/// Whether `s` is among `v`.
fn contains_string(v: &Vec<String>, s: &String) -> (r: bool)
    ensures
        r == strings_view(v@).contains(s@),
{
    let mut i: usize = 0;
    while i < v.len()
        invariant
            i <= v.len(),
            forall|j: int| 0 <= j < i ==> v@[j]@ != s@,
        decreases v.len() - i,
    {
        if v[i] == *s {
            assert(strings_view(v@)[i as int] == s@);
            return true;
        }
        i = i + 1;
    }
    false
}

impl Manifest {
    /// Checks the raw fields and builds the manifest: the version must be
    /// present and not blank; the download addresses are those of `files`,
    /// each once in first-seen order, or else the top-level `path`.
    pub fn from_raw(raw: RawManifest) -> (r: Result<Manifest, UpdateError>)
        ensures
            result_view(r) == from_raw_spec(raw),
            r matches Ok(m) ==> manifest_wf(m@),
    {
        let ghost raw0 = raw;
        let version: String = match raw.version {
            None => {
                return Err(UpdateError::MissingVersion);
            },
            Some(v) => v,
        };
        if text_is_blank(version.as_str()) {
            return Err(UpdateError::MissingVersion);
        }
        let mut urls: Vec<String> = Vec::new();
        let ghost all = file_urls(raw0.files);
        match &raw.files {
            Some(files) => {
                for i in 0..files.len()
                    invariant
                        all == file_urls(raw0.files),
                        raw0.files == Some(*files),
                        strings_view(urls@) == dedup_urls(all.take(i as int)),
                {
                    let u: &String = &files[i].url;
                    proof {
                        assert(all.take(i + 1).drop_last() =~= all.take(i as int));
                        assert(all.take(i + 1).last() == u@);
                    }
                    if !u.as_str().is_empty() && !contains_string(&urls, u) {
                        urls.push(u.clone());
                        proof {
                            assert(strings_view(urls@) =~= dedup_urls(all.take(i as int)).push(
                                u@,
                            ));
                        }
                    }
                }
                assert(all.take(files.len() as int) =~= all);
            },
            None => {},
        }
        if urls.len() == 0 {
            match raw.path {
                Some(p) => {
                    if !text_is_blank(p.as_str()) {
                        urls.push(p);
                    }
                },
                None => {},
            }
        }
        assert(strings_view(urls@) =~= download_urls(raw0));
        if urls.len() == 0 {
            return Err(UpdateError::MissingDownloadUrl);
        }
        proof {
            lemma_dedup_urls(all);
        }
        Ok(
            Manifest {
                version,
                release_name: raw.release_name,
                release_date: raw.release_date,
                urls,
                release_notes: raw.release_notes,
            },
        )
    }
}

} // verus!
