//! Downloads by URL: which addresses are accepted, and the name under which
//! a downloaded file is kept.

use vstd::prelude::*;

use crate::text::{push_signed_decimal, push_str, signed_decimal};

verus! {

broadcast use vstd::string::group_string_axioms;

/// What `url::Url::parse` makes of a text, as far as downloads need it: the
/// scheme and the segments of the path (when the URL has a path made of
/// segments), or nothing when the text is not a URL.
pub uninterp spec fn url_parts(s: Seq<char>) -> Option<(Seq<char>, Option<Seq<Seq<char>>>)>;

/// `url::Url::parse`, with the parsed URL's `scheme()` and the items of its
/// `path_segments()`, in order. The result depends on the text alone; the
/// URL grammar itself is not restated here.
#[verifier::external_body]
fn parse_url(s: &str) -> (r: Option<(String, Option<Vec<String>>)>)
    ensures
        match r {
            Some((scheme, segments)) => url_parts(s@) == Some((scheme@, match segments {
                Some(v) => Some(crate::text::views(v@)),
                None => None,
            })),
            None => url_parts(s@) is None,
        },
{
    match url::Url::parse(s) {
        Ok(u) => {
            let segments = u.path_segments().map(|items| items.map(|item| item.to_owned()).collect());
            Some((u.scheme().to_owned(), segments))
        },
        Err(_) => None,
    }
}

/// Why a URL is refused.
#[derive(Clone, Copy, Debug, PartialEq, Eq, Structural)]
pub enum UrlError {
    /// The text is not a URL.
    Invalid,
    /// "Only HTTP/HTTPS URLs are supported"
    UnsupportedScheme,
}

impl UrlError {
    /// The message shown for the error.
    pub fn message(&self) -> (r: &'static str)
        ensures
            r@ == url_error_text(*self),
    {
        match self {
            UrlError::Invalid => "Invalid URL format",
            UrlError::UnsupportedScheme => "Only HTTP/HTTPS URLs are supported",
        }
    }
}

/// The message of a URL error.
pub open spec fn url_error_text(e: UrlError) -> Seq<char> {
    match e {
        UrlError::Invalid => "Invalid URL format"@,
        UrlError::UnsupportedScheme => "Only HTTP/HTTPS URLs are supported"@,
    }
}

/// Whether a URL can be downloaded: it must parse, with the scheme `http`
/// or `https`.
pub open spec fn url_check(s: Seq<char>) -> Result<(), UrlError> {
    match url_parts(s) {
        None => Err(UrlError::Invalid),
        Some((scheme, _)) => if scheme == "http"@ || scheme == "https"@ {
            Ok(())
        } else {
            Err(UrlError::UnsupportedScheme)
        },
    }
}

/// Checks that a URL can be downloaded.
pub fn validate_url(url: &str) -> (r: Result<(), UrlError>)
    ensures
        r == url_check(url@),
{
    match parse_url(url) {
        None => Err(UrlError::Invalid),
        Some((scheme, _)) => {
            if crate::text::str_eq(scheme.as_str(), "http") || crate::text::str_eq(
                scheme.as_str(),
                "https",
            ) {
                Ok(())
            } else {
                Err(UrlError::UnsupportedScheme)
            }
        },
    }
}

/// The name a downloaded file is kept under: the time of the download (in
/// seconds), an underscore, and the last segment of the URL's path, or
/// "download" when that is missing or empty.
pub open spec fn download_name(s: Seq<char>, timestamp: i64) -> Seq<char> {
    let name = match url_parts(s) {
        Some((_, Some(segments))) => if segments.len() > 0 && segments.last().len() > 0 {
            segments.last()
        } else {
            "download"@
        },
        _ => "download"@,
    };
    signed_decimal(timestamp as int) + "_"@ + name
}

/// Checks a URL to download and gives the name its file is kept under.
pub fn download_file_name(url: &str, timestamp: i64) -> (r: Result<String, UrlError>)
    ensures
        match r {
            Ok(name) => url_check(url@) is Ok && name@ == download_name(url@, timestamp),
            Err(e) => url_check(url@) == Err::<(), UrlError>(e),
        },
{
    match parse_url(url) {
        None => Err(UrlError::Invalid),
        Some((scheme, segments)) => {
            if !(crate::text::str_eq(scheme.as_str(), "http") || crate::text::str_eq(
                scheme.as_str(),
                "https",
            )) {
                return Err(UrlError::UnsupportedScheme);
            }
            let mut name = String::new();
            push_signed_decimal(&mut name, timestamp);
            push_str(&mut name, "_");
            match segments {
                Some(v) => {
                    if v.len() > 0 && !v[v.len() - 1].as_str().is_empty() {
                        push_str(&mut name, v[v.len() - 1].as_str());
                    } else {
                        push_str(&mut name, "download");
                    }
                },
                None => push_str(&mut name, "download"),
            }
            Ok(name)
        },
    }
}

/// One step of a download, performed in order by the caller.
#[derive(Clone, Debug, PartialEq, Eq)]
pub enum DownloadStep {
    /// Create the download folder (and its parents) if it is missing.
    CreateFolder,
    /// Request the URL over HTTP(S) and read the response body.
    Fetch(String),
    /// Write the body to a new file of this name in the download folder.
    Save(String),
}

/// The value of a `DownloadStep`.
pub enum DownloadStepView {
    CreateFolder,
    Fetch(Seq<char>),
    Save(Seq<char>),
}

impl View for DownloadStep {
    type V = DownloadStepView;

    open spec fn view(&self) -> DownloadStepView {
        match self {
            DownloadStep::CreateFolder => DownloadStepView::CreateFolder,
            DownloadStep::Fetch(u) => DownloadStepView::Fetch(u@),
            DownloadStep::Save(n) => DownloadStepView::Save(n@),
        }
    }
}

/// The steps of downloading a URL at a time (in seconds): a refused URL
/// gives its error and no step at all; an accepted one creates the folder,
/// fetches the URL and saves the body under the download name.
pub open spec fn download_plan(s: Seq<char>, timestamp: i64) -> Result<Seq<DownloadStepView>, UrlError> {
    match url_check(s) {
        Err(e) => Err(e),
        Ok(_) => Ok(
            seq![
                DownloadStepView::CreateFolder,
                DownloadStepView::Fetch(s),
                DownloadStepView::Save(download_name(s, timestamp)),
            ],
        ),
    }
}

/// The steps of downloading a URL, or why the URL is refused.
pub fn download_steps(url: &str, timestamp: i64) -> (r: Result<Vec<DownloadStep>, UrlError>)
    ensures
        match r {
            Ok(v) => download_plan(url@, timestamp) matches Ok(p) && p == v@.map_values(|x: DownloadStep| x@),
            Err(e) => download_plan(url@, timestamp) == Err::<Seq<DownloadStepView>, UrlError>(e),
        },
{
    match download_file_name(url, timestamp) {
        Err(e) => Err(e),
        Ok(name) => {
            let v = vec![DownloadStep::CreateFolder, DownloadStep::Fetch(url.to_owned()), DownloadStep::Save(name)];
            assert(v@.map_values(|x: DownloadStep| x@) =~= download_plan(url@, timestamp)->Ok_0);
            Ok(v)
        },
    }
}

/// A URL that is refused (not a URL, or neither `http` nor `https`) is
/// downloaded in no step: no folder is created, nothing is requested and
/// no file is written; the refusal is the URL check's error.
pub proof fn lemma_refused_url_downloads_nothing(s: Seq<char>, timestamp: i64)
    requires
        url_check(s) is Err,
    ensures
        download_plan(s, timestamp) == Err::<Seq<DownloadStepView>, UrlError>(url_check(s)->Err_0),
{
}

/// How long a downloaded file is kept, in seconds (a day).
pub const DOWNLOAD_MAX_AGE: i64 = 86400;

/// Whether a downloaded file last modified at `modified` is older than a
/// day at `now` (both in seconds) and is to be removed.
pub fn download_expired(modified: i64, now: i64) -> (r: bool)
    ensures
        r == (modified < now - DOWNLOAD_MAX_AGE),
{
    if now < i64::MIN + DOWNLOAD_MAX_AGE {
        false
    } else {
        modified < now - DOWNLOAD_MAX_AGE
    }
}

} // verus!
