//! The reference to the image that the user gives.

use vstd::prelude::*;

verus! {

/// `needle` occurs in `haystack`.
pub open spec fn occurs_in(needle: Seq<char>, haystack: Seq<char>) -> bool {
    exists|i: int| 0 <= i <= haystack.len() - needle.len()
        && #[trigger] haystack.subrange(i, i + needle.len()) == needle
}

/// Relies on `str::contains` with a `&str` pattern: whether the pattern
/// occurs in the text.
#[verifier::external_body]
fn contains(haystack: &str, needle: &str) -> (r: bool)
    ensures
        r == occurs_in(needle@, haystack@),
{
    haystack.contains(needle)
}

/// Reference to the desired image.
#[derive(Debug, Hash, Clone, PartialEq, Eq, PartialOrd, Ord)]
pub enum Input {
    /// The base URL of the image.
    BaseUrl(String),
    /// The page of the image.
    PageUrl(String),
    /// The item ID of the image.
    ItemId(String),
}

impl Input {
    /// The text that the input holds, whatever its kind.
    pub open spec fn text(&self) -> Seq<char> {
        match self {
            Input::BaseUrl(s) => s@,
            Input::PageUrl(s) => s@,
            Input::ItemId(s) => s@,
        }
    }

    /// Infers the kind of input from its text: an image host address is a
    /// base URL, an archive address is a page URL, anything else is an item
    /// ID. Always succeeds.
    pub fn try_from(value: &str) -> (r: Result<Input, ()>)
        ensures
            r is Ok,
            r->Ok_0.text() == value@,
            (r->Ok_0 is BaseUrl) == occurs_in("ggpht.com"@, value@),
            (r->Ok_0 is PageUrl) == (!occurs_in("ggpht.com"@, value@)
                && occurs_in("deadseascrolls.org"@, value@)),
            (r->Ok_0 is ItemId) == (!occurs_in("ggpht.com"@, value@)
                && !occurs_in("deadseascrolls.org"@, value@)),
    {
        let owned = String::from_str(value);
        if contains(value, "ggpht.com") {
            Ok(Input::BaseUrl(owned))
        } else if contains(value, "deadseascrolls.org") {
            Ok(Input::PageUrl(owned))
        } else {
            Ok(Input::ItemId(owned))
        }
    }

    /// The text of the input.
    pub fn as_ref(&self) -> (r: &str)
        ensures
            r@ == self.text(),
    {
        match self {
            Input::BaseUrl(s) => s.as_str(),
            Input::PageUrl(s) => s.as_str(),
            Input::ItemId(s) => s.as_str(),
        }
    }

    /// The text of the input, as it is shown to the user.
    pub fn to_string(&self) -> (r: String)
        ensures
            r@ == self.text(),
    {
        String::from_str(self.as_ref())
    }
}

/// The address under which the archive shows the page of an item.
pub const ITEM_PAGE_PREFIX: &'static str = "https://www.deadseascrolls.org.il/explore-the-archive/image/";

/// The address of the archive page of the item `id`.
pub fn item_page_url(id: &str) -> (r: String)
    ensures
        r@ == ITEM_PAGE_PREFIX@ + id@,
{
    let mut r = String::from_str(ITEM_PAGE_PREFIX);
    r.append(id);
    r
}

} // verus!
