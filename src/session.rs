//! The per-resolution HTTP session: the cookie jar, the request that goes
//! out, and the redirect protocol that decides what happens after each
//! response.
use vstd::prelude::*;
use vstd::string::StringExecFns;
use crate::outside::{cookie_name_value, parsed_cookie};

verus! {

/// The user agent sent when none is configured.
pub const USER_AGENT: &'static str = "Mozilla/5.0 url-bot-rs/0.1.0";

/// At most this many new cookies are taken from a single response.
pub const MAX_NEW_COOKIES: usize = 32;

/// Configuration of the requests of one resolution.
pub struct RequestParams {
    pub user_agent: String,
    pub timeout_s: u64,
    pub redirect_limit: u8,
    pub accept_lang: String,
}

impl Default for RequestParams {
    fn default() -> (r: RequestParams)
        ensures
            r.user_agent@ == USER_AGENT@,
            r.timeout_s == 10,
            r.redirect_limit == 10,
            r.accept_lang@ == "en"@,
    {
        RequestParams {
            user_agent: String::from_str(USER_AGENT),
            timeout_s: 10,
            redirect_limit: 10,
            accept_lang: String::from_str("en"),
        }
    }
}

/// The strings held by a vector of strings.
pub open spec fn strings_view(v: Seq<String>) -> Seq<Seq<char>> {
    v.map_values(|s: String| s@)
}

/// No string occurs twice.
pub open spec fn no_duplicates(jar: Seq<Seq<char>>) -> bool {
    forall|i: int, j: int| 0 <= i < j < jar.len() ==> jar[i] != jar[j]
}

/// The jar after taking the cookies of one response: from the left, each
/// cookie not yet in the jar is appended, until `budget` cookies were taken.
pub open spec fn absorb(jar: Seq<Seq<char>>, incoming: Seq<Seq<char>>, budget: nat) -> Seq<Seq<char>>
    decreases incoming.len(),
{
    if incoming.len() == 0 || budget == 0 {
        jar
    } else if jar.contains(incoming[0]) {
        absorb(jar, incoming.drop_first(), budget)
    } else {
        absorb(jar.push(incoming[0]), incoming.drop_first(), (budget - 1) as nat)
    }
}

/// `absorb` grows the jar by at most `budget`, keeps what it held in front,
/// and adds no duplicate.
pub proof fn lemma_absorb_bounds(jar: Seq<Seq<char>>, incoming: Seq<Seq<char>>, budget: nat)
    ensures
        absorb(jar, incoming, budget).len() <= jar.len() + budget,
        jar.len() <= absorb(jar, incoming, budget).len(),
        absorb(jar, incoming, budget).subrange(0, jar.len() as int) == jar,
        no_duplicates(jar) ==> no_duplicates(absorb(jar, incoming, budget)),
    decreases incoming.len(),
{
    if incoming.len() == 0 || budget == 0 {
        assert(jar.subrange(0, jar.len() as int) =~= jar);
    } else if jar.contains(incoming[0]) {
        lemma_absorb_bounds(jar, incoming.drop_first(), budget);
    } else {
        let next = jar.push(incoming[0]);
        lemma_absorb_bounds(next, incoming.drop_first(), (budget - 1) as nat);
        let r = absorb(next, incoming.drop_first(), (budget - 1) as nat);
        assert(r.subrange(0, jar.len() as int) =~= r.subrange(0, next.len() as int).subrange(0, jar.len() as int));
        assert(next.subrange(0, jar.len() as int) =~= jar);
        if no_duplicates(jar) {
            assert forall|i: int, j: int| 0 <= i < j < next.len() implies next[i] != next[j] by {
                if j == jar.len() {
                    assert(jar[i] == next[i]);
                    if next[i] == next[j] {
                        assert(jar.contains(incoming[0]));
                    }
                }
            }
        }
    }
}

/// The `name=value` pairs of the jar's cookies that parse, in jar order.
pub open spec fn cookie_pairs(jar: Seq<Seq<char>>) -> Seq<Seq<char>>
    decreases jar.len(),
{
    if jar.len() == 0 {
        Seq::empty()
    } else {
        let before = cookie_pairs(jar.drop_last());
        match parsed_cookie(jar.last()) {
            Some(nv) => before.push(nv.0 + "="@ + nv.1),
            None => before,
        }
    }
}

/// The parts joined with `sep` between each two.
pub open spec fn join(parts: Seq<Seq<char>>, sep: Seq<char>) -> Seq<char>
    decreases parts.len(),
{
    if parts.len() == 0 {
        Seq::empty()
    } else if parts.len() == 1 {
        parts[0]
    } else {
        join(parts.drop_last(), sep) + sep + parts.last()
    }
}

/// The pairs of each parsed cookie, `None` where a cookie did not parse.
pub open spec fn present_pairs(parsed: Seq<Option<(String, String)>>) -> Seq<Seq<char>>
    decreases parsed.len(),
{
    if parsed.len() == 0 {
        Seq::empty()
    } else {
        let before = present_pairs(parsed.drop_last());
        match parsed.last() {
            Some(nv) => before.push(nv.0@ + "="@ + nv.1@),
            None => before,
        }
    }
}

/// The value of a `Cookie` header: the `name=value` of each parsed cookie,
/// separated by `"; "`.
pub fn format_cookie_header(parsed: &Vec<Option<(String, String)>>) -> (r: String)
    ensures
        r@ == join(present_pairs(parsed@), "; "@),
{
    let mut out = String::new();
    let mut any = false;
    let mut i: usize = 0;
    while i < parsed.len()
        invariant
            i <= parsed@.len(),
            out@ == join(present_pairs(parsed@.take(i as int)), "; "@),
            any == (present_pairs(parsed@.take(i as int)).len() > 0),
        decreases parsed@.len() - i,
    {
        assert(parsed@.take(i + 1).drop_last() =~= parsed@.take(i as int));
        assert(parsed@.take(i + 1).last() == parsed@[i as int]);
        let ghost before = present_pairs(parsed@.take(i as int));
        match &parsed[i] {
            Some(nv) => {
                if any {
                    out.append("; ");
                }
                out.append(nv.0.as_str());
                out.append("=");
                out.append(nv.1.as_str());
                proof {
                    let now = present_pairs(parsed@.take(i + 1));
                    assert(now == before.push(nv.0@ + "="@ + nv.1@));
                    assert(now.drop_last() =~= before);
                    assert(out@ =~= join(now, "; "@));
                }
                any = true;
            },
            None => {},
        }
        i = i + 1;
    }
    assert(parsed@.take(parsed@.len() as int) =~= parsed@);
    out
}

/// Why a resolution ended without a description.
#[derive(Debug, PartialEq, Eq)]
pub enum ResolveError {
    /// The transport failed: name lookup, connection, TLS or a timeout.
    ConnectionError(String),
    /// A redirection came without a usable `Location`.
    RedirectionTargetMissing,
    /// Following one more redirection would pass the configured limit.
    TooManyRedirects,
    /// The server answered with a status that is neither 2xx nor 3xx.
    UnhandledStatus(u16),
    /// No title or metadata was found in what was read of the body.
    TitleParseFailed,
}

/// A request for the transport to issue: a GET of `url` with these headers.
pub struct Request {
    pub url: String,
    pub cookie: String,
    pub user_agent: String,
    pub accept_lang: String,
    pub accept_encoding: String,
}

/// What the transport should do after a response was handed to the session.
pub enum Step {
    /// Issue this request next.
    Follow(Request),
    /// The response is the one to read the body of.
    Done,
    /// The resolution ends with this error; nothing more is requested.
    Fail(ResolveError),
}

pub open spec fn is_redirection(status: u16) -> bool {
    300 <= status <= 399
}

pub open spec fn is_success(status: u16) -> bool {
    200 <= status <= 299
}

/// The redirect counter after one more redirection: raised by one, but
/// never past one over the limit, where the session has already failed.
pub open spec fn raised_count(count: nat, limit: nat) -> nat {
    if count <= limit {
        count + 1
    } else {
        count
    }
}

/// The counter after `k` redirections in a row from a fresh start.
pub open spec fn count_after(k: nat, limit: nat) -> nat
    decreases k,
{
    if k == 0 {
        0
    } else {
        raised_count(count_after((k - 1) as nat, limit), limit)
    }
}

/// From a fresh counter, the counter after `k` redirections is `k` up to
/// one over the limit, and it passes the limit exactly when `k` does: the
/// redirections up to the limit are all followed (one fewer than the limit
/// included), and the loop fails with too many redirects at redirection
/// `limit + 1`, with the counter at `limit + 1`.
pub proof fn lemma_redirect_limit(k: nat, limit: nat)
    ensures
        k <= limit + 1 ==> count_after(k, limit) == k,
        count_after(k, limit) > limit <==> k > limit,
        count_after(k, limit) <= limit + 1,
    decreases k,
{
    if k > 0 {
        lemma_redirect_limit((k - 1) as nat, limit);
    }
}

/// The jar after the cookies of each of a run of redirect responses, in turn.
pub open spec fn absorb_each(jar: Seq<Seq<char>>, responses: Seq<Seq<Seq<char>>>) -> Seq<Seq<char>>
    decreases responses.len(),
{
    if responses.len() == 0 {
        jar
    } else {
        absorb_each(absorb(jar, responses[0], MAX_NEW_COOKIES as nat), responses.drop_first())
    }
}

/// Over `h` redirect responses the jar grows by at most `MAX_NEW_COOKIES`
/// per response, however many cookies each one sends, and never holds a
/// cookie twice.
pub proof fn lemma_cookie_growth(jar: Seq<Seq<char>>, responses: Seq<Seq<Seq<char>>>)
    ensures
        absorb_each(jar, responses).len() <= jar.len() + MAX_NEW_COOKIES * responses.len(),
        no_duplicates(jar) ==> no_duplicates(absorb_each(jar, responses)),
    decreases responses.len(),
{
    if responses.len() > 0 {
        let next = absorb(jar, responses[0], MAX_NEW_COOKIES as nat);
        lemma_absorb_bounds(jar, responses[0], MAX_NEW_COOKIES as nat);
        lemma_cookie_growth(next, responses.drop_first());
    }
}

/// The state of one resolution's requests.
pub struct Session {
    pub url: String,
    pub cookies: Vec<String>,
    pub request_count: u16,
    pub params: RequestParams,
}

impl Session {
    /// The jar as strings.
    pub open spec fn jar(&self) -> Seq<Seq<char>> {
        strings_view(self.cookies@)
    }

    /// The jar holds each cookie once, and the counter is at most one over
    /// the limit, which it reaches only when the session has failed.
    pub open spec fn wf(&self) -> bool {
        &&& no_duplicates(self.jar())
        &&& self.request_count <= self.params.redirect_limit + 1
    }

    /// The request that the session issues for its current URL.
    pub open spec fn request_of(&self, r: Request) -> bool {
        &&& r.url@ == self.url@
        &&& r.cookie@ == join(cookie_pairs(self.jar()), "; "@)
        &&& r.user_agent@ == self.params.user_agent@
        &&& r.accept_lang@ == self.params.accept_lang@
        &&& r.accept_encoding@ == "identity"@
    }

    pub fn new() -> (r: Session)
        ensures
            r.wf(),
            r.url@.len() == 0,
            r.cookies@.len() == 0,
            r.request_count == 0,
            r.params.user_agent@ == USER_AGENT@,
            r.params.timeout_s == 10,
            r.params.redirect_limit == 10,
            r.params.accept_lang@ == "en"@,
    {
        Session {
            url: String::new(),
            cookies: Vec::new(),
            request_count: 0,
            params: RequestParams::default(),
        }
    }

    /// Sets the language asked for.
    pub fn accept_lang(&mut self, accept_lang: &str) -> (r: &mut Session)
        ensures
            r.params.accept_lang@ == accept_lang@,
            r.params.user_agent == old(self).params.user_agent,
            r.params.timeout_s == old(self).params.timeout_s,
            r.params.redirect_limit == old(self).params.redirect_limit,
            r.url == old(self).url,
            r.cookies == old(self).cookies,
            r.request_count == old(self).request_count,
            *final(self) == *final(r),
    {
        self.params.accept_lang = String::from_str(accept_lang);
        self
    }

    /// The value of the `Cookie` header: each stored cookie that parses, as
    /// `name=value`, joined by `"; "`.
    pub fn cookie_header(&self) -> (r: String)
        ensures
            r@ == join(cookie_pairs(self.jar()), "; "@),
    {
        let mut parsed: Vec<Option<(String, String)>> = Vec::new();
        let mut i: usize = 0;
        while i < self.cookies.len()
            invariant
                i <= self.cookies@.len(),
                parsed@.len() == i,
                present_pairs(parsed@) == cookie_pairs(self.jar().take(i as int)),
            decreases self.cookies@.len() - i,
        {
            let p = cookie_name_value(self.cookies[i].as_str());
            let ghost prev = parsed@;
            proof {
                assert(self.jar().take(i + 1).drop_last() =~= self.jar().take(i as int));
                assert(self.jar().take(i + 1).last() == self.cookies@[i as int]@);
            }
            parsed.push(p);
            proof {
                assert(parsed@.drop_last() =~= prev);
            }
            i = i + 1;
        }
        assert(self.jar().take(i as int) =~= self.jar());
        format_cookie_header(&parsed)
    }

    /// The request for the current URL.
    fn current_request(&self) -> (r: Request)
        ensures
            self.request_of(r),
    {
        Request {
            url: self.url.clone(),
            cookie: self.cookie_header(),
            user_agent: self.params.user_agent.clone(),
            accept_lang: self.params.accept_lang.clone(),
            accept_encoding: String::from_str("identity"),
        }
    }

    /// Starts a resolution of `url`: the counter goes back to zero and the
    /// first request is returned.
    pub fn request(&mut self, url: &str) -> (r: Request)
        requires
            old(self).wf(),
        ensures
            final(self).wf(),
            final(self).url@ == url@,
            final(self).request_count == 0,
            final(self).cookies == old(self).cookies,
            final(self).params == old(self).params,
            final(self).request_of(r),
    {
        self.url = String::from_str(url);
        self.request_count = 0;
        self.current_request()
    }

    /// Takes the cookies of one response: each one not yet in the jar is
    /// appended in arrival order, at most `MAX_NEW_COOKIES` of them.
    pub fn absorb_cookies(&mut self, set_cookies: &Vec<String>)
        requires
            old(self).wf(),
        ensures
            final(self).wf(),
            final(self).jar() == absorb(old(self).jar(), strings_view(set_cookies@), MAX_NEW_COOKIES as nat),
            final(self).jar().len() <= old(self).jar().len() + MAX_NEW_COOKIES,
            final(self).url == old(self).url,
            final(self).request_count == old(self).request_count,
            final(self).params == old(self).params,
    {
        let ghost start = self.jar();
        let ghost incoming = strings_view(set_cookies@);
        let mut budget: usize = MAX_NEW_COOKIES;
        let mut i: usize = 0;
        proof {
            lemma_absorb_bounds(start, incoming, MAX_NEW_COOKIES as nat);
            assert(incoming.skip(0) =~= incoming);
        }
        while i < set_cookies.len() && budget > 0
            invariant
                i <= set_cookies@.len(),
                budget <= MAX_NEW_COOKIES,
                incoming == strings_view(set_cookies@),
                absorb(self.jar(), incoming.skip(i as int), budget as nat)
                    == absorb(start, incoming, MAX_NEW_COOKIES as nat),
                self.wf(),
                self.url == old(self).url,
                self.request_count == old(self).request_count,
                self.params == old(self).params,
            decreases set_cookies@.len() - i,
        {
            let c = &set_cookies[i];
            let ghost rest = incoming.skip(i as int);
            assert(rest[0] == c@);
            assert(rest.drop_first() =~= incoming.skip(i + 1));
            let mut present = false;
            let mut j: usize = 0;
            while j < self.cookies.len()
                invariant
                    j <= self.cookies@.len(),
                    present <==> self.jar().take(j as int).contains(c@),
                decreases self.cookies@.len() - j,
            {
                let same = self.cookies[j] == *c;
                if same {
                    present = true;
                }
                proof {
                    let jar = self.jar();
                    assert(jar[j as int] == self.cookies@[j as int]@);
                    assert(jar.take(j + 1) =~= jar.take(j as int).push(jar[j as int]));
                    let t0 = jar.take(j as int);
                    let t1 = jar.take(j + 1);
                    if t1.contains(c@) {
                        let k = choose|k: int| 0 <= k < t1.len() && #[trigger] t1[k] == c@;
                        if k < j {
                            assert(t0[k] == c@);
                        }
                    }
                    if same {
                        assert(t1[j as int] == c@);
                    }
                    if t0.contains(c@) {
                        let k = choose|k: int| 0 <= k < t0.len() && #[trigger] t0[k] == c@;
                        assert(t1[k] == c@);
                    }
                }
                j = j + 1;
            }
            assert(self.jar().take(j as int) =~= self.jar());
            if !present {
                let ghost before = self.jar();
                self.cookies.push(c.clone());
                proof {
                    assert(self.jar() =~= before.push(c@));
                    lemma_absorb_bounds(before, rest, budget as nat);
                    assert forall|a: int, b: int| 0 <= a < b < self.jar().len() implies self.jar()[a] != self.jar()[b] by {
                        if b == before.len() {
                            assert(before[a] == self.jar()[a]);
                        }
                    }
                }
                budget = budget - 1;
            }
            i = i + 1;
        }
        proof {
            if i >= set_cookies.len() {
                assert(incoming.skip(i as int).len() == 0);
            }
            lemma_absorb_bounds(start, incoming, MAX_NEW_COOKIES as nat);
        }
    }

    /// Handles one response: its status, its `Set-Cookie` values and its
    /// `Location`, and says what comes next.
    pub fn on_response(&mut self, status: u16, set_cookies: &Vec<String>, location: Option<String>) -> (r: Step)
        requires
            old(self).wf(),
        ensures
            final(self).wf(),
            final(self).params == old(self).params,
            is_redirection(status) ==> {
                &&& final(self).jar() == absorb(old(self).jar(), strings_view(set_cookies@), MAX_NEW_COOKIES as nat)
                &&& match location {
                    None => r == Step::Fail(ResolveError::RedirectionTargetMissing)
                        && final(self).url == old(self).url
                        && final(self).request_count == old(self).request_count,
                    Some(loc) => {
                        &&& final(self).url@ == loc@
                        &&& final(self).request_count == raised_count(
                            old(self).request_count as nat,
                            old(self).params.redirect_limit as nat,
                        )
                        &&& final(self).request_count > old(self).params.redirect_limit
                            ==> r == Step::Fail(ResolveError::TooManyRedirects)
                        &&& final(self).request_count <= old(self).params.redirect_limit
                            ==> (r matches Step::Follow(rq) && final(self).request_of(rq))
                    },
                }
            },
            !is_redirection(status) ==> {
                &&& final(self).cookies == old(self).cookies
                &&& final(self).url == old(self).url
                &&& final(self).request_count == old(self).request_count
                &&& is_success(status) ==> r == Step::Done
                &&& !is_success(status) ==> r == Step::Fail(ResolveError::UnhandledStatus(status))
            },
    {
        if 300 <= status && status <= 399 {
            self.absorb_cookies(set_cookies);
            match location {
                None => Step::Fail(ResolveError::RedirectionTargetMissing),
                Some(loc) => {
                    self.url = loc;
                    let limit = self.params.redirect_limit as u16;
                    if self.request_count <= limit {
                        self.request_count = self.request_count + 1;
                    }
                    if self.request_count > limit {
                        Step::Fail(ResolveError::TooManyRedirects)
                    } else {
                        Step::Follow(self.current_request())
                    }
                },
            }
        } else if 200 <= status && status <= 299 {
            Step::Done
        } else {
            Step::Fail(ResolveError::UnhandledStatus(status))
        }
    }
}

} // verus!
