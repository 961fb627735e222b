//! Text helpers for chat replies: truncation to a byte budget, names that do
//! not notify their owner, and screening of URL tokens.
use vstd::prelude::*;
use vstd::string::{StrSliceExecFns, StringExecFns};
use crate::outside::{first_grapheme, first_grapheme_of, has_unsafe_chars, is_unsafe_char, url_scheme, url_scheme_of};

verus! {

/// The zero-width non-joiner put into names.
pub const ZWNJ: &'static str = "\u{200C}";

/// Bytes that a character takes in UTF-8.
pub open spec fn utf8_width(c: char) -> nat {
    let u = c as u32;
    if u < 0x80 {
        1
    } else if u < 0x800 {
        2
    } else if u < 0x10000 {
        3
    } else {
        4
    }
}

/// Bytes that a text takes in UTF-8.
pub open spec fn utf8_len(s: Seq<char>) -> nat
    decreases s.len(),
{
    if s.len() == 0 {
        0
    } else {
        utf8_len(s.drop_last()) + utf8_width(s.last())
    }
}

fn char_width(c: char) -> (r: usize)
    ensures
        r == utf8_width(c),
{
    let u = c as u32;
    if u < 0x80 {
        1
    } else if u < 0x800 {
        2
    } else if u < 0x10000 {
        3
    } else {
        4
    }
}

/// The longest prefix of `s` that fits in `n` bytes of UTF-8, cut between
/// characters.
pub fn utf8_truncate(s: &str, n: usize) -> (r: String)
    ensures
        r@.len() <= s@.len(),
        r@ == s@.take(r@.len() as int),
        utf8_len(r@) <= n,
        r@.len() < s@.len() ==> utf8_len(s@.take(r@.len() + 1 as int)) > n,
{
    let len = s.unicode_len();
    let mut i: usize = 0;
    let mut used: usize = 0;
    while i < len
        invariant
            len == s@.len(),
            i <= len,
            used == utf8_len(s@.take(i as int)),
            used <= n,
        decreases len - i,
    {
        let c = s.get_char(i);
        let w = char_width(c);
        assert(s@.take(i + 1).drop_last() =~= s@.take(i as int));
        if w > n - used {
            let r = String::from_str(s.substring_char(0, i));
            assert(r@ =~= s@.take(i as int));
            return r;
        }
        used = used + w;
        i = i + 1;
    }
    let r = String::from_str(s.substring_char(0, i));
    assert(r@ =~= s@.take(i as int));
    assert(s@.take(i as int) =~= s@);
    r
}

/// `name` with a zero-width non-joiner after its first `head` characters.
pub fn mask_name(name: &str, head: &str) -> (r: String)
    requires
        head@.len() <= name@.len(),
        head@ == name@.take(head@.len() as int),
    ensures
        r@ == head@ + ZWNJ@ + name@.skip(head@.len() as int),
{
    let k = head.unicode_len();
    let mut r = String::from_str(head);
    r.append(ZWNJ);
    r.append(name.substring_char(k, name.unicode_len()));
    r
}

/// `name` with a zero-width non-joiner after its first grapheme, so that
/// quoting it does not notify its owner; the joiner alone for an empty name.
pub fn create_non_highlighting_name(name: &str) -> (r: String)
    ensures
        r@ == first_grapheme_of(name@) + ZWNJ@ + name@.skip(first_grapheme_of(name@).len() as int),
        first_grapheme_of(name@).len() <= name@.len(),
        first_grapheme_of(name@) == name@.take(first_grapheme_of(name@).len() as int),
        first_grapheme_of(name@).len() == 0 <==> name@.len() == 0,
{
    let head = first_grapheme(name);
    mask_name(name, head.as_str())
}

/// The token holds a character that RFC 1738 calls unsafe in a URL.
pub fn contains_unsafe_chars(token: &str) -> (r: bool)
    ensures
        r == (exists|i: int| 0 <= i < token@.len() && is_unsafe_char(#[trigger] token@[i])),
{
    has_unsafe_chars(token)
}

/// Replies are cut to this many bytes (RFC 1459).
pub const REPLY_BYTES: usize = 510;

/// A token worth resolving: it reads as a URL, holds no unsafe character
/// and its scheme is `http` or `https`.
pub open spec fn is_candidate(token: Seq<char>) -> bool {
    &&& url_scheme_of(token) matches Some(scheme) && (scheme == "http"@ || scheme == "https"@)
    &&& !(exists|i: int| 0 <= i < token.len() && is_unsafe_char(#[trigger] token[i]))
}

/// Whether a message token is a URL to resolve.
pub fn is_url_candidate(token: &str) -> (r: bool)
    ensures
        r == is_candidate(token@),
{
    match url_scheme(token) {
        None => false,
        Some(scheme) => {
            if contains_unsafe_chars(token) {
                false
            } else {
                scheme == String::from_str("http") || scheme == String::from_str("https")
            }
        },
    }
}

/// An earlier post of the same URL.
pub struct PreviousPost {
    pub user: String,
    pub time_created: String,
    pub channel: String,
}

/// The name shown for the earlier poster.
pub open spec fn shown_user(user: Seq<char>, mask: bool) -> Seq<char> {
    if mask {
        first_grapheme_of(user) + ZWNJ@ + user.skip(first_grapheme_of(user).len() as int)
    } else {
        user
    }
}

/// The whole reply for a title, before truncation.
pub open spec fn full_reply(title: Seq<char>, previous: Option<PreviousPost>, mask: bool) -> Seq<char> {
    match previous {
        None => "\u{2937} "@ + title,
        Some(p) => "\u{2937} "@ + title + " \u{2192} "@ + p.time_created@ + " "@ + shown_user(p.user@, mask)
            + " ("@ + p.channel@ + ")"@,
    }
}

/// The reply to post for a resolved title: the title, and where the URL was
/// posted before if it was, cut to `REPLY_BYTES` bytes.
pub fn format_reply(title: &str, previous: &Option<PreviousPost>, mask: bool) -> (r: String)
    ensures
        r@.len() <= full_reply(title@, *previous, mask).len(),
        r@ == full_reply(title@, *previous, mask).take(r@.len() as int),
        utf8_len(r@) <= REPLY_BYTES,
        r@.len() < full_reply(title@, *previous, mask).len() ==> utf8_len(
            full_reply(title@, *previous, mask).take(r@.len() + 1 as int),
        ) > REPLY_BYTES,
{
    let mut msg = String::from_str("\u{2937} ");
    msg.append(title);
    match previous {
        None => {},
        Some(p) => {
            let user = if mask {
                create_non_highlighting_name(p.user.as_str())
            } else {
                p.user.clone()
            };
            msg.append(" \u{2192} ");
            msg.append(p.time_created.as_str());
            msg.append(" ");
            msg.append(user.as_str());
            msg.append(" (");
            msg.append(p.channel.as_str());
            msg.append(")");
        },
    }
    assert(msg@ =~= full_reply(title@, *previous, mask));
    utf8_truncate(msg.as_str(), REPLY_BYTES)
}

/// What to do with the next token of a chat message.
#[derive(Debug, PartialEq, Eq, Structural)]
pub enum TokenAction {
    /// Enough URLs of this message were handled: look at no more tokens.
    Stop,
    /// Not a URL to resolve.
    Skip,
    /// Resolve this URL.
    Resolve,
}

/// Decides on a token of a message, given how many of its URLs were already
/// answered and how many may be.
pub fn token_action(num_processed: usize, url_limit: usize, token: &str) -> (r: TokenAction)
    ensures
        num_processed == url_limit ==> r == TokenAction::Stop,
        num_processed != url_limit && is_candidate(token@) ==> r == TokenAction::Resolve,
        num_processed != url_limit && !is_candidate(token@) ==> r == TokenAction::Skip,
{
    if num_processed == url_limit {
        TokenAction::Stop
    } else if is_url_candidate(token) {
        TokenAction::Resolve
    } else {
        TokenAction::Skip
    }
}

} // verus!
