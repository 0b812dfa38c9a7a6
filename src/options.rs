//! The options of the command line that carry rules: the output format with
//! its JPEG quality, and the zoom level.

use vstd::prelude::*;

verus! {

/// Told when the quality after a JPEG format name is not a number.
pub const QUALITY_ERROR: &'static str = "couldn't parse the quality, it should be a number within [0,100]";

/// Told when the format name is not known.
pub const FORMAT_ERROR: &'static str = "unrecognized image output format";

/// Told when the zoom level is not a number.
pub const ZOOM_NUMBER_ERROR: &'static str = "zoom should be a number >= 0";

/// Told when the zoom level is negative.
pub const ZOOM_SIGN_ERROR: &'static str = "Zoom level must be >= 0";

/// An output container format. JPEG carries its quality, from 0 to 100.
#[derive(Debug, Clone, Copy, PartialEq, Eq, Structural)]
pub enum OutputFormat {
    Png,
    Bmp,
    Gif,
    Ico,
    Farbfeld,
    Tga,
    OpenExr,
    Tiff,
    Jpeg(u8),
}

/// `c` with an ASCII capital letter made small.
pub open spec fn ascii_lower(c: char) -> char {
    if 'A' <= c <= 'Z' {
        seq!['a', 'b', 'c', 'd', 'e', 'f', 'g', 'h', 'i', 'j', 'k', 'l', 'm',
             'n', 'o', 'p', 'q', 'r', 's', 't', 'u', 'v', 'w', 'x', 'y', 'z'][(c as u32) as int - ('A' as u32) as int]
    } else {
        c
    }
}

/// `s` with its ASCII capital letters made small.
pub open spec fn ascii_lowercase(s: Seq<char>) -> Seq<char> {
    s.map_values(|c: char| ascii_lower(c))
}

/// `s` begins with `prefix`.
pub open spec fn begins_with(s: Seq<char>, prefix: Seq<char>) -> bool {
    prefix.len() <= s.len() && s.subrange(0, prefix.len() as int) == prefix
}

/// The value of a nonempty run of decimal digits.
pub open spec fn digits_value(d: Seq<char>) -> int
    decreases d.len(),
{
    if d.len() == 0 {
        0
    } else {
        digits_value(d.drop_last()) * 10 + ((d.last() as u32) as int - ('0' as u32) as int)
    }
}

/// Every character of `d` is a decimal digit, and there is one at least.
pub open spec fn all_digits(d: Seq<char>) -> bool {
    d.len() > 0 && forall|i: int| 0 <= i < d.len() ==> '0' <= #[trigger] d[i] <= '9'
}

/// The number that `s` spells: decimal digits after an optional `+`.
pub open spec fn unsigned_decimal(s: Seq<char>) -> Option<int> {
    let d = if s.len() > 0 && s[0] == '+' { s.drop_first() } else { s };
    if all_digits(d) { Some(digits_value(d)) } else { None }
}

/// The number that `s` spells: decimal digits after an optional `+` or `-`.
pub open spec fn signed_decimal(s: Seq<char>) -> Option<int> {
    if s.len() > 0 && s[0] == '-' {
        if all_digits(s.drop_first()) { Some(-digits_value(s.drop_first())) } else { None }
    } else {
        unsigned_decimal(s)
    }
}

/// Relies on `str::to_ascii_lowercase`: ASCII capitals made small, every
/// other character kept.
#[verifier::external_body]
fn to_ascii_lowercase(s: &str) -> (r: String)
    ensures
        r@ == ascii_lowercase(s@),
{
    s.to_ascii_lowercase()
}

/// Relies on `str::starts_with` with a `&str` pattern.
#[verifier::external_body]
fn starts_with(s: &str, prefix: &str) -> (r: bool)
    ensures
        r == begins_with(s@, prefix@),
{
    s.starts_with(prefix)
}

/// Relies on `<u8 as FromStr>::from_str`: an optional `+` and decimal digits
/// whose value is at most 255.
#[verifier::external_body]
fn parse_u8(s: &str) -> (r: Option<u8>)
    ensures
        r is Some <==> (unsigned_decimal(s@) is Some && unsigned_decimal(s@)->0 <= u8::MAX),
        r is Some ==> r->0 == unsigned_decimal(s@)->0,
{
    s.parse::<u8>().ok()
}

/// Relies on `<isize as FromStr>::from_str`: an optional sign and decimal
/// digits whose value fits `isize`.
#[verifier::external_body]
fn parse_isize(s: &str) -> (r: Option<isize>)
    ensures
        r is Some <==> (signed_decimal(s@) is Some && isize::MIN <= signed_decimal(s@)->0 <= isize::MAX),
        r is Some ==> r->0 == signed_decimal(s@)->0,
{
    s.parse::<isize>().ok()
}

/// The format that a lowercase name stands for on its own.
pub open spec fn named_format(f: Seq<char>) -> Option<OutputFormat> {
    if f == "png"@ {
        Some(OutputFormat::Png)
    } else if f == "bmp"@ {
        Some(OutputFormat::Bmp)
    } else if f == "gif"@ {
        Some(OutputFormat::Gif)
    } else if f == "ico"@ {
        Some(OutputFormat::Ico)
    } else if f == "farbfeld"@ {
        Some(OutputFormat::Farbfeld)
    } else if f == "tga"@ {
        Some(OutputFormat::Tga)
    } else if f == "exr"@ || f == "openexr"@ {
        Some(OutputFormat::OpenExr)
    } else if f == "tiff"@ {
        Some(OutputFormat::Tiff)
    } else {
        None
    }
}

/// The length of the JPEG name that a lowercase name begins with.
pub open spec fn jpeg_name_len(f: Seq<char>) -> Option<int> {
    if begins_with(f, "jpg"@) {
        Some(3)
    } else if begins_with(f, "jpeg"@) {
        Some(4)
    } else {
        None
    }
}

/// The JPEG quality that the text after the name gives: 100 where there is
/// none, a number above 100 counts as 100.
pub open spec fn jpeg_quality(q: Seq<char>) -> Option<u8> {
    if q.len() == 0 {
        Some(100)
    } else {
        match unsigned_decimal(q) {
            Some(v) => if v <= 100 { Some(v as u8) } else if v <= u8::MAX { Some(100) } else { None },
            None => None,
        }
    }
}

/// Reads an output format, ignoring ASCII case: `png`, `bmp`, `gif`, `ico`,
/// `farbfeld`, `tga`, `exr` or `openexr`, `tiff`, or `jpg` / `jpeg`
/// followed by an optional quality.
pub fn parse_format(format: &str) -> (r: Result<OutputFormat, &'static str>)
    ensures
        ({
            let f = ascii_lowercase(format@);
            &&& named_format(f) is Some ==> r == Ok::<OutputFormat, &'static str>(named_format(f)->0)
            &&& named_format(f) is None && jpeg_name_len(f) is Some ==> ({
                let q = jpeg_quality(f.subrange(jpeg_name_len(f)->0, f.len() as int));
                &&& q is Some ==> r == Ok::<OutputFormat, &'static str>(OutputFormat::Jpeg(q->0))
                &&& q is None ==> r is Err && r->Err_0@ == QUALITY_ERROR@
            })
            &&& named_format(f) is None && jpeg_name_len(f) is None ==> r is Err && r->Err_0@ == FORMAT_ERROR@
        }),
{
    proof {
        reveal_strlit("jpg");
        reveal_strlit("jpeg");
    }
    let lowered = to_ascii_lowercase(format);
    let f = lowered.as_str();
    if lowered == String::from_str("png") {
        Ok(OutputFormat::Png)
    } else if lowered == String::from_str("bmp") {
        Ok(OutputFormat::Bmp)
    } else if lowered == String::from_str("gif") {
        Ok(OutputFormat::Gif)
    } else if lowered == String::from_str("ico") {
        Ok(OutputFormat::Ico)
    } else if lowered == String::from_str("farbfeld") {
        Ok(OutputFormat::Farbfeld)
    } else if lowered == String::from_str("tga") {
        Ok(OutputFormat::Tga)
    } else if lowered == String::from_str("exr") || lowered == String::from_str("openexr") {
        Ok(OutputFormat::OpenExr)
    } else if lowered == String::from_str("tiff") {
        Ok(OutputFormat::Tiff)
    } else {
        let name_len: usize = if starts_with(f, "jpg") {
            3
        } else if starts_with(f, "jpeg") {
            4
        } else {
            return Err(FORMAT_ERROR);
        };
        let len = f.unicode_len();
        let quality = f.substring_char(name_len, len);
        if quality.unicode_len() == 0 {
            Ok(OutputFormat::Jpeg(100))
        } else {
            match parse_u8(quality) {
                Some(q) => Ok(OutputFormat::Jpeg(if q > 100 { 100 } else { q })),
                None => Err(QUALITY_ERROR),
            }
        }
    }
}

/// Reads a zoom level: a decimal number, which must not be negative.
pub fn cli_validate_zoom(zoom: &str) -> (r: Result<usize, &'static str>)
    ensures
        ({
            let v = signed_decimal(zoom@);
            &&& (v is None || !(isize::MIN <= v->0 <= isize::MAX)) ==> r is Err && r->Err_0@ == ZOOM_NUMBER_ERROR@
            &&& v is Some && isize::MIN <= v->0 < 0 ==> r is Err && r->Err_0@ == ZOOM_SIGN_ERROR@
            &&& v is Some && 0 <= v->0 <= isize::MAX ==> r == Ok::<usize, &'static str>(v->0 as usize)
        }),
{
    match parse_isize(zoom) {
        None => Err(ZOOM_NUMBER_ERROR),
        Some(z) => if z >= 0 { Ok(z as usize) } else { Err(ZOOM_SIGN_ERROR) },
    }
}

} // verus!
