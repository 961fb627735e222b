//! The start of a resolution and the record kept when one fails.
use vstd::prelude::*;
use vstd::string::StringExecFns;
use crate::classify::Features;
use crate::session::{Request, Session, USER_AGENT};

verus! {

/// What a resolution is configured with.
pub struct ResolveConfig {
    /// The language asked for.
    pub accept_lang: String,
    /// Which fallback descriptions are allowed.
    pub features: Features,
    /// Failures are recorded for later inspection.
    pub history: bool,
}

impl Default for ResolveConfig {
    fn default() -> (r: ResolveConfig)
        ensures
            r.accept_lang@ == "en"@,
            r.features.report_metadata,
            r.features.report_mime,
            r.history,
    {
        ResolveConfig {
            accept_lang: String::from_str("en"),
            features: Features { report_metadata: true, report_mime: true },
            history: true,
        }
    }
}

/// Starts resolving `url`: a fresh session with the configured language,
/// and the first request it issues.
pub fn resolve_url(url: &str, conf: &ResolveConfig) -> (r: (Session, Request))
    ensures
        r.0.wf(),
        r.0.url@ == url@,
        r.0.cookies@.len() == 0,
        r.0.request_count == 0,
        r.0.params.accept_lang@ == conf.accept_lang@,
        r.0.params.user_agent@ == USER_AGENT@,
        r.0.params.redirect_limit == 10,
        r.0.request_of(r.1),
{
    let mut session = Session::new();
    session.accept_lang(conf.accept_lang.as_str());
    let request = session.request(url);
    (session, request)
}

/// A snapshot of a failed exchange, kept for diagnosis.
pub struct ErrorInfo {
    /// The error, as text.
    pub error: String,
    /// The response's status code.
    pub status: u16,
    /// The status code's canonical reason, `"UNKNOWN"` when it has none.
    pub reason: String,
    /// Each header name once, with the last value seen for it; a value that
    /// is not text is recorded as `"ERROR"`.
    pub headers: Vec<(String, String)>,
}

/// The recorded text of a header value.
pub open spec fn value_text(v: Option<String>) -> Seq<char> {
    match v {
        Some(s) => s@,
        None => "ERROR"@,
    }
}

/// The headers as a map: each name to the last value given for it.
pub open spec fn header_map(hs: Seq<(String, Option<String>)>) -> Map<Seq<char>, Seq<char>>
    decreases hs.len(),
{
    if hs.len() == 0 {
        Map::empty()
    } else {
        header_map(hs.drop_last()).insert(hs.last().0@, value_text(hs.last().1))
    }
}

/// Recorded entries as a map.
pub open spec fn entries_map(e: Seq<(String, String)>) -> Map<Seq<char>, Seq<char>>
    decreases e.len(),
{
    if e.len() == 0 {
        Map::empty()
    } else {
        entries_map(e.drop_last()).insert(e.last().0@, e.last().1@)
    }
}

/// No name is recorded twice.
pub open spec fn unique_names(e: Seq<(String, String)>) -> bool {
    forall|i: int, j: int| 0 <= i < j < e.len() ==> e[i].0@ != e[j].0@
}

/// Replacing the value of a recorded name changes the map at that name only.
proof fn lemma_entries_update(e: Seq<(String, String)>, j: int, x: (String, String))
    requires
        unique_names(e),
        0 <= j < e.len(),
        x.0@ == e[j].0@,
    ensures
        entries_map(e.update(j, x)) == entries_map(e).insert(x.0@, x.1@),
    decreases e.len(),
{
    let u = e.update(j, x);
    if j == e.len() - 1 {
        assert(u.drop_last() =~= e.drop_last());
        assert(entries_map(u) =~= entries_map(e).insert(x.0@, x.1@));
    } else {
        let d = e.drop_last();
        assert(u.drop_last() =~= d.update(j, x));
        lemma_entries_update(d, j, x);
        assert(e.last().0@ != x.0@);
        assert(entries_map(u) =~= entries_map(e).insert(x.0@, x.1@));
    }
}

impl ErrorInfo {
    /// The snapshot of a failed exchange: the error text, the status, its
    /// reason and the response's headers in the order received.
    pub fn new(error: String, status: u16, reason: Option<String>, headers: &Vec<(String, Option<String>)>) -> (r: ErrorInfo)
        ensures
            r.error == error,
            r.status == status,
            r.reason@ == value_or_unknown(reason),
            unique_names(r.headers@),
            entries_map(r.headers@) == header_map(headers@),
    {
        let mut entries: Vec<(String, String)> = Vec::new();
        let mut i: usize = 0;
        while i < headers.len()
            invariant
                i <= headers@.len(),
                unique_names(entries@),
                entries_map(entries@) == header_map(headers@.take(i as int)),
            decreases headers@.len() - i,
        {
            let name = headers[i].0.clone();
            let value = match &headers[i].1 {
                Some(v) => v.clone(),
                None => String::from_str("ERROR"),
            };
            proof {
                assert(headers@.take(i + 1).drop_last() =~= headers@.take(i as int));
                assert(headers@.take(i + 1).last() == headers@[i as int]);
            }
            let mut j: usize = 0;
            let mut at: Option<usize> = None;
            while j < entries.len()
                invariant
                    j <= entries@.len(),
                    at matches Some(k) ==> k < entries@.len() && entries@[k as int].0@ == name@,
                    at is None ==> forall|k: int| 0 <= k < j ==> entries@[k].0@ != name@,
                decreases entries@.len() - j,
            {
                if at.is_none() && entries[j].0 == name {
                    at = Some(j);
                }
                j = j + 1;
            }
            let ghost before = entries@;
            let entry = (name, value);
            match at {
                Some(k) => {
                    proof {
                        lemma_entries_update(before, k as int, entry);
                    }
                    entries.set(k, entry);
                    proof {
                        assert(entries@ == before.update(k as int, entry));
                        assert forall|a: int, b: int| 0 <= a < b < entries@.len() implies entries@[a].0@ != entries@[b].0@ by {
                            assert(before[a].0@ != before[b].0@);
                        }
                    }
                },
                None => {
                    entries.push(entry);
                    proof {
                        assert(entries@.drop_last() =~= before);
                    }
                },
            }
            i = i + 1;
        }
        assert(headers@.take(i as int) =~= headers@);
        let reason = match reason {
            Some(r) => r,
            None => String::from_str("UNKNOWN"),
        };
        ErrorInfo { error, status, reason, headers: entries }
    }
}

/// The reason given, or `"UNKNOWN"`.
pub open spec fn value_or_unknown(v: Option<String>) -> Seq<char> {
    match v {
        Some(s) => s@,
        None => "UNKNOWN"@,
    }
}

/// The record kept of a failed classification: a snapshot of the exchange
/// when failures are recorded, nothing otherwise.
pub fn failure_record(
    conf: &ResolveConfig,
    error: String,
    status: u16,
    reason: Option<String>,
    headers: &Vec<(String, Option<String>)>,
) -> (r: Option<ErrorInfo>)
    ensures
        r is Some <==> conf.history,
        r matches Some(e) ==> {
            &&& e.error == error
            &&& e.status == status
            &&& e.reason@ == value_or_unknown(reason)
            &&& unique_names(e.headers@)
            &&& entries_map(e.headers@) == header_map(headers@)
        },
{
    if conf.history {
        Some(ErrorInfo::new(error, status, reason, headers))
    } else {
        None
    }
}

} // verus!
