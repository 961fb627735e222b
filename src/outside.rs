//! Calls into other crates and into std, each behind a contract that the
//! rest of the library relies on.
use vstd::prelude::*;
use std::str::FromStr;
use humansize::FileSize;
use unicode_segmentation::UnicodeSegmentation;

verus! {

/// The name and value that `cookie` reads out of a raw `Set-Cookie` string,
/// or `None` when it refuses the string.
pub uninterp spec fn parsed_cookie(raw: Seq<char>) -> Option<(Seq<char>, Seq<char>)>;

/// Relies on `cookie::Cookie::from_str`, `name` and `value`: the pair read
/// from the first `name=value` segment of a Set-Cookie string.
#[verifier::external_body]
pub(crate) fn cookie_name_value(raw: &str) -> (r: Option<(String, String)>)
    ensures
        r is Some <==> parsed_cookie(raw@) is Some,
        r matches Some(nv) ==> parsed_cookie(raw@) == Some((nv.0@, nv.1@)),
{
    cookie::Cookie::from_str(raw).ok().map(|c| (c.name().to_string(), c.value().to_string()))
}

/// What `mime` reads out of a `Content-Type` value: the whole value as it
/// keeps it, the type and the subtype; `None` when it refuses the value.
pub uninterp spec fn parsed_mime(s: Seq<char>) -> Option<(Seq<char>, Seq<char>, Seq<char>)>;

/// Relies on `mime::Mime::from_str`, `as_ref`, `type_` and `subtype`.
#[verifier::external_body]
pub(crate) fn parse_mime(s: &str) -> (r: Option<(String, String, String)>)
    ensures
        r is Some <==> parsed_mime(s@) is Some,
        r matches Some(m) ==> parsed_mime(s@) == Some((m.0@, m.1@, m.2@)),
{
    mime::Mime::from_str(s).ok().map(
        |m| (m.as_ref().to_string(), m.type_().as_str().to_string(), m.subtype().as_str().to_string()),
    )
}

/// What `humansize` writes for a number of bytes, in binary multiples with
/// two decimals and no space before the unit (`16B`, `1.31KB`).
pub uninterp spec fn human_size_of(n: u64) -> Seq<char>;

/// Relies on `humansize::FileSize::file_size` with its conventional options,
/// the space before the unit left out. On an unsigned size it never fails.
#[verifier::external_body]
pub(crate) fn human_size(n: u64) -> (r: String)
    ensures
        r@ == human_size_of(n),
{
    let opts = humansize::file_size_opts::FileSizeOpts { space: false, ..humansize::file_size_opts::CONVENTIONAL };
    n.file_size(opts).unwrap_or_default()
}

/// The text that `String::from_utf8_lossy` makes of some bytes.
pub uninterp spec fn lossy_text(b: Seq<u8>) -> Seq<char>;

/// Relies on `String::from_utf8_lossy`: invalid sequences become U+FFFD.
#[verifier::external_body]
pub(crate) fn decode_lossy(b: &[u8]) -> (r: String)
    ensures
        r@ == lossy_text(b@),
{
    String::from_utf8_lossy(b).into_owned()
}

/// The first extended grapheme cluster of a text, as `unicode-segmentation`
/// finds it.
pub uninterp spec fn first_grapheme_of(s: Seq<char>) -> Seq<char>;

/// Relies on `UnicodeSegmentation::graphemes`: the clusters are non-empty
/// and split the text without gaps, so the first is a prefix, empty only for
/// an empty text.
#[verifier::external_body]
pub(crate) fn first_grapheme(s: &str) -> (r: String)
    ensures
        r@ == first_grapheme_of(s@),
        r@.len() <= s@.len(),
        r@ == s@.take(r@.len() as int),
        r@.len() == 0 <==> s@.len() == 0,
{
    s.graphemes(true).next().unwrap_or("").to_string()
}

/// A character that RFC 1738 calls unsafe in a URL: one of `{}|\^~[]` and
/// the backtick.
pub open spec fn is_unsafe_char(c: char) -> bool {
    c == '{' || c == '}' || c == '|' || c == '\\' || c == '^' || c == '~' || c == '[' || c == ']'
        || c == '`'
}

/// Relies on `regex::Regex::new` and `is_match` with the character class of
/// the unsafe characters: it matches exactly where one of them occurs.
#[verifier::external_body]
pub(crate) fn has_unsafe_chars(s: &str) -> (r: bool)
    ensures
        r == (exists|i: int| 0 <= i < s@.len() && is_unsafe_char(#[trigger] s@[i])),
{
    regex::Regex::new(r"[{}|\\^~\[\]`]").map_or(false, |re| re.is_match(s))
}

/// The scheme of a URL as the `url` crate reads it, `None` when it refuses
/// the text as a URL.
pub uninterp spec fn url_scheme_of(s: Seq<char>) -> Option<Seq<char>>;

/// Relies on `url::Url::parse` (re-exported by `reqwest`) and `scheme`.
#[verifier::external_body]
pub(crate) fn url_scheme(s: &str) -> (r: Option<String>)
    ensures
        r is Some <==> url_scheme_of(s@) is Some,
        r matches Some(x) ==> url_scheme_of(s@) == Some(x@),
{
    reqwest::Url::parse(s).ok().map(|u| u.scheme().to_string())
}

} // verus!
