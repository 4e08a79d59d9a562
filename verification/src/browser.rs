//! What the browser commands read back from a page: its HTML, its console
//! and the requests it made.

use vstd::prelude::*;

verus! {

broadcast use vstd::string::group_string_axioms;

/// A page's HTML and when it was taken, in milliseconds.
#[derive(Debug)]
pub struct DOMSnapshot {
    pub html: String,
    pub timestamp: u64,
}

/// A console message of a page.
#[derive(Debug)]
pub struct ConsoleLog {
    pub level: String,
    pub message: String,
    pub timestamp: u64,
}

/// A request a page made.
#[derive(Debug)]
pub struct NetworkRequest {
    pub url: String,
    pub method: String,
    pub status: u16,
    pub duration_ms: u64,
    pub timestamp: u64,
}

/// The snapshot of a page whose HTML was read where it came back as a
/// string, and is empty otherwise.
pub fn dom_snapshot(html: Option<String>, timestamp: u64) -> (r: DOMSnapshot)
    ensures
        r.html@ == match html {
            Some(h) => h@,
            None => Seq::<char>::empty(),
        },
        r.timestamp == timestamp,
{
    let html = match html {
        Some(h) => h,
        None => String::new(),
    };
    DOMSnapshot { html, timestamp }
}

/// The request described by one entry of a page's resource timings: only
/// an entry with all five fields, of the right kinds, describes one; its
/// status is cut to 16 bits.
pub fn network_request(
    url: Option<String>,
    method: Option<String>,
    status: Option<u64>,
    duration_ms: Option<u64>,
    timestamp: Option<u64>,
) -> (r: Option<NetworkRequest>)
    ensures
        (r is Some) == (url is Some && method is Some && status is Some && duration_ms is Some
            && timestamp is Some),
        r matches Some(q) ==> q.url@ == url->0@ && q.method@ == method->0@ && q.status == (
        status->0 as u16) && q.duration_ms == duration_ms->0 && q.timestamp == timestamp->0,
{
    match (url, method, status, duration_ms, timestamp) {
        (Some(url), Some(method), Some(status), Some(duration_ms), Some(timestamp)) => Some(
            NetworkRequest { url, method, status: status as u16, duration_ms, timestamp },
        ),
        _ => None,
    }
}

} // verus!
