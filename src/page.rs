//! Metadata of an image page: the tile base address and the title, taken
//! from the page's markup.

use vstd::prelude::*;

verus! {

/// The error of the HTTP client.
#[verifier::external_type_specification]
#[verifier::external_body]
pub struct ExHttpError(reqwest::Error);

/// Finds the base address in the `url` attribute of the image viewer element.
pub const BASE_URL_PATTERN: &'static str = r#"<image-viewer[\s\S]+?url="(?P<url>https[^"]+)"#;

/// Finds the title after the site name segment of the document title.
pub const TITLE_PATTERN: &'static str = r#"<title>\s*[^-]+-\s*(?P<title>[^<]+?)\s*</title>"#;

/// The text of the group named `group` in the leftmost-first match of the
/// regular expression `pattern` in `haystack`; `None` where the pattern does
/// not compile, does not match, or the group took no part in the match.
pub uninterp spec fn regex_capture(pattern: Seq<char>, haystack: Seq<char>, group: Seq<char>) -> Option<Seq<char>>;

/// Relies on `regex::Regex::new`, `Regex::captures` and `Captures::name`:
/// the text of a named group in the first match, which depends on the
/// pattern, the text and the group's name alone.
#[verifier::external_body]
fn capture_group(pattern: &str, haystack: &str, group: &str) -> (r: Option<String>)
    ensures
        r is None <==> regex_capture(pattern@, haystack@, group@) is None,
        r is Some ==> regex_capture(pattern@, haystack@, group@) == Some(r->0@),
{
    let re = regex::Regex::new(pattern).ok()?;
    re.captures(haystack)?.name(group).map(|m| m.as_str().to_owned())
}

/// Failure to obtain the metadata of a page.
#[derive(Debug)]
pub enum PageError {
    /// The page could not be fetched.
    HttpError(reqwest::Error),
    /// The page holds no image viewer with a base address.
    BaseNotFound,
    /// The page holds no title of the expected shape.
    TitleNotFound,
}

/// The metadata of an image page.
#[derive(Debug, Hash, Default, Clone, PartialEq, Eq, PartialOrd, Ord)]
pub struct Page {
    pub title: String,
    pub base_url: String,
}

impl Page {
    /// Builds the metadata from the two extractions: the base address is
    /// looked at first.
    pub fn from_captures(base_url: Option<String>, title: Option<String>) -> (r: Result<Page, PageError>)
        ensures
            base_url is None ==> (r is Err && r->Err_0 is BaseNotFound),
            base_url is Some && title is None ==> (r is Err && r->Err_0 is TitleNotFound),
            base_url is Some && title is Some ==> r is Ok
                && r->Ok_0.base_url@ == base_url->0@
                && r->Ok_0.title@ == title->0@,
    {
        match base_url {
            None => Err(PageError::BaseNotFound),
            Some(base_url) => match title {
                None => Err(PageError::TitleNotFound),
                Some(title) => Ok(Page { title, base_url }),
            },
        }
    }

    /// Extracts the metadata from the markup of an image page.
    pub fn from_markup(markup: &str) -> (r: Result<Page, PageError>)
        ensures
            ({
                let base = regex_capture(BASE_URL_PATTERN@, markup@, "url"@);
                let title = regex_capture(TITLE_PATTERN@, markup@, "title"@);
                &&& base is None ==> (r is Err && r->Err_0 is BaseNotFound)
                &&& base is Some && title is None ==> (r is Err && r->Err_0 is TitleNotFound)
                &&& base is Some && title is Some ==> r is Ok
                    && r->Ok_0.base_url@ == base->0
                    && r->Ok_0.title@ == title->0
            }),
    {
        let base_url = capture_group(BASE_URL_PATTERN, markup, "url");
        let title = capture_group(TITLE_PATTERN, markup, "title");
        Page::from_captures(base_url, title)
    }
}

} // verus!
