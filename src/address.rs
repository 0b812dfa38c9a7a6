//! Tile addresses.
//!
//! A tile base address extended with `=x<col>-y<row>-z<zoom>` addresses one
//! tile; the order of the axes does not matter. A probe template ends with the
//! letter of the probed axis and no value: the candidate index is appended.

use vstd::prelude::*;

verus! {

/// The character of a decimal digit.
pub open spec fn digit_char(d: nat) -> char {
    seq!['0', '1', '2', '3', '4', '5', '6', '7', '8', '9'][d as int]
}

/// The decimal digits of `n`, most significant first, without leading zeros.
pub open spec fn decimal(n: nat) -> Seq<char>
    decreases n,
{
    if n < 10 {
        seq![digit_char(n)]
    } else {
        decimal(n / 10).push(digit_char(n % 10))
    }
}

/// Relies on `itoa::Buffer::format`: the decimal representation of `n`.
#[verifier::external_body]
fn decimal_string(n: usize) -> (r: String)
    ensures
        r@ == decimal(n as nat),
{
    itoa::Buffer::new().format(n).to_owned()
}

/// The template that probes the zoom axis: `<base>=x0-y0-z`.
pub fn zoom_template(base: &str) -> (r: String)
    ensures
        r@ == base@ + "=x0-y0-z"@,
{
    let mut r = String::from_str(base);
    r.append("=x0-y0-z");
    r
}

/// The template that probes the columns at `zoom`: `<base>=z<zoom>-y0-x`.
pub fn column_template(base: &str, zoom: usize) -> (r: String)
    ensures
        r@ == base@ + "=z"@ + decimal(zoom as nat) + "-y0-x"@,
{
    let mut r = String::from_str(base);
    r.append("=z");
    let z = decimal_string(zoom);
    r.append(z.as_str());
    r.append("-y0-x");
    r
}

/// The template that probes the rows at `zoom`: `<base>=z<zoom>-x0-y`.
pub fn row_template(base: &str, zoom: usize) -> (r: String)
    ensures
        r@ == base@ + "=z"@ + decimal(zoom as nat) + "-x0-y"@,
{
    let mut r = String::from_str(base);
    r.append("=z");
    let z = decimal_string(zoom);
    r.append(z.as_str());
    r.append("-x0-y");
    r
}

/// The address of the tile at column `x`, row `y` and zoom `zoom`:
/// `<base>=x<x>-y<y>-z<zoom>`.
pub fn tile_address(base: &str, x: usize, y: usize, zoom: usize) -> (r: String)
    ensures
        r@ == base@ + "=x"@ + decimal(x as nat) + "-y"@ + decimal(y as nat) + "-z"@ + decimal(zoom as nat),
{
    let mut r = String::from_str(base);
    r.append("=x");
    let xs = decimal_string(x);
    r.append(xs.as_str());
    r.append("-y");
    let ys = decimal_string(y);
    r.append(ys.as_str());
    r.append("-z");
    let zs = decimal_string(zoom);
    r.append(zs.as_str());
    r
}

/// A template address whose tail is replaced by successive integers.
pub struct StringMutTail {
    head: String,
    url: String,
}

/// The abstract value of a [`StringMutTail`]: its fixed head and the current
/// address.
pub struct TailView {
    pub head: Seq<char>,
    pub url: Seq<char>,
}

impl View for StringMutTail {
    type V = TailView;

    closed spec fn view(&self) -> TailView {
        TailView { head: self.head@, url: self.url@ }
    }
}

impl StringMutTail {
    /// Sets the tail to the decimal representation of `integer` and returns
    /// the whole address.
    pub fn with_tail_int(&mut self, integer: usize) -> (r: &str)
        ensures
            final(self)@.head == old(self)@.head,
            final(self)@.url == old(self)@.head + decimal(integer as nat),
            r@ == final(self)@.url,
    {
        let mut url = self.head.clone();
        let digits = decimal_string(integer);
        url.append(digits.as_str());
        self.url = url;
        self.url.as_str()
    }
}

impl StringMutTail {
    /// A template whose head is `base`; the address is `base` until a tail
    /// is set.
    pub fn new(base: &str) -> (r: StringMutTail)
        ensures
            r@ == (TailView { head: base@, url: base@ }),
    {
        StringMutTail { head: String::from_str(base), url: String::from_str(base) }
    }
}

impl From<String> for StringMutTail {
    fn from(base: String) -> (r: StringMutTail)
        ensures
            r@ == (TailView { head: base@, url: base@ }),
    {
        StringMutTail::new(base.as_str())
    }
}

impl vstd::std_specs::convert::FromSpecImpl<String> for StringMutTail {
    open spec fn obeys_from_spec() -> bool {
        false
    }

    open spec fn from_spec(base: String) -> StringMutTail {
        arbitrary()
    }
}

impl From<&str> for StringMutTail {
    fn from(base: &str) -> (r: StringMutTail)
        ensures
            r@ == (TailView { head: base@, url: base@ }),
    {
        StringMutTail::new(base)
    }
}

impl vstd::std_specs::convert::FromSpecImpl<&str> for StringMutTail {
    open spec fn obeys_from_spec() -> bool {
        false
    }

    open spec fn from_spec(base: &str) -> StringMutTail {
        arbitrary()
    }
}

} // verus!
