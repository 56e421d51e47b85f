//! Clients of the upstream endpoints: which endpoints are served over websocket and
//! which over HTTP, and the checks made on them.
use vstd::prelude::*;
use crate::config::{parses_as_uri, uri_parses};

pub mod endpoint;
pub mod health;
pub mod http;

verus! {

/// The configuration of the upstream client.
#[derive(Debug)]
pub struct ClientConfig {
    pub endpoints: Vec<String>,
    pub shuffle_endpoints: bool,
}

/// `s` starts with `p`.
pub open spec fn has_prefix(s: Seq<char>, p: Seq<char>) -> bool {
    p.len() <= s.len() && s.subrange(0, p.len() as int) == p
}

/// Whether `s` starts with `p`.
pub fn starts_with(s: &str, p: &str) -> (b: bool)
    ensures
        b == has_prefix(s@, p@),
{
    let ls = s.unicode_len();
    let lp = p.unicode_len();
    if lp > ls {
        return false;
    }
    let mut i: usize = 0;
    while i < lp
        invariant
            lp <= ls,
            ls == s@.len(),
            lp == p@.len(),
            i <= lp,
            s@.subrange(0, i as int) == p@.subrange(0, i as int),
        decreases lp - i,
    {
        if s.get_char(i) != p.get_char(i) {
            assert(s@.subrange(0, lp as int)[i as int] != p@[i as int]);
            return false;
        }
        assert(s@.subrange(0, i + 1) =~= s@.subrange(0, i as int).push(s@[i as int]));
        assert(p@.subrange(0, i + 1) =~= p@.subrange(0, i as int).push(p@[i as int]));
        i = i + 1;
    }
    assert(p@.subrange(0, lp as int) =~= p@);
    true
}

/// An endpoint served over websocket.
pub open spec fn is_ws_url(s: Seq<char>) -> bool {
    has_prefix(s, "ws://"@) || has_prefix(s, "wss://"@)
}

/// An endpoint served over HTTP.
pub open spec fn is_http_url(s: Seq<char>) -> bool {
    has_prefix(s, "http://"@) || has_prefix(s, "https://"@)
}

/// No endpoint is both a websocket and an HTTP endpoint.
pub proof fn lemma_ws_and_http_disjoint(s: Seq<char>)
    ensures
        !(is_ws_url(s) && is_http_url(s)),
{
    reveal_strlit("ws://");
    reveal_strlit("wss://");
    reveal_strlit("http://");
    reveal_strlit("https://");
    if is_ws_url(s) && is_http_url(s) {
        if has_prefix(s, "ws://"@) {
            assert(s[0] == "ws://"@.subrange(0, 5)[0]);
        } else {
            assert(s[0] == "wss://"@.subrange(0, 6)[0]);
        }
        if has_prefix(s, "http://"@) {
            assert(s[0] == "http://"@.subrange(0, 7)[0]);
        } else {
            assert(s[0] == "https://"@.subrange(0, 8)[0]);
        }
    }
}

/// The elements of `s` that satisfy `p`, in order.
pub open spec fn keep<T>(s: Seq<T>, p: spec_fn(T) -> bool) -> Seq<T>
    decreases s.len(),
{
    if s.len() == 0 {
        Seq::empty()
    } else if p(s.last()) {
        keep(s.drop_last(), p).push(s.last())
    } else {
        keep(s.drop_last(), p)
    }
}

pub open spec fn ws_pred() -> spec_fn(String) -> bool {
    |e: String| is_ws_url(e@)
}

pub open spec fn http_pred() -> spec_fn(String) -> bool {
    |e: String| is_http_url(e@)
}

/// Splits `endpoints` into the websocket ones and the HTTP ones, each in order; an
/// endpoint of neither kind is in neither list.
pub fn get_urls(endpoints: &Vec<String>) -> (r: (Vec<String>, Vec<String>))
    ensures
        r.0@ == keep(endpoints@, ws_pred()),
        r.1@ == keep(endpoints@, http_pred()),
{
    let mut ws: Vec<String> = Vec::new();
    let mut http: Vec<String> = Vec::new();
    let mut i: usize = 0;
    assert(endpoints@.take(0) =~= Seq::<String>::empty());
    while i < endpoints.len()
        invariant
            i <= endpoints.len(),
            ws@ == keep(endpoints@.take(i as int), ws_pred()),
            http@ == keep(endpoints@.take(i as int), http_pred()),
        decreases endpoints.len() - i,
    {
        let e = &endpoints[i];
        assert(endpoints@.take(i + 1).drop_last() =~= endpoints@.take(i as int));
        assert(endpoints@.take(i + 1).last() == endpoints@[i as int]);
        let is_ws = starts_with(e.as_str(), "ws://") || starts_with(e.as_str(), "wss://");
        let is_http = starts_with(e.as_str(), "http://") || starts_with(e.as_str(), "https://");
        if is_ws {
            ws.push(e.clone());
        }
        if is_http {
            http.push(e.clone());
        }
        i = i + 1;
    }
    assert(endpoints@.take(i as int) =~= endpoints@);
    (ws, http)
}

/// Why no client could be made.
#[derive(Debug, Clone, Copy, PartialEq, Eq, Structural)]
pub enum ClientError {
    /// None of the endpoints is a websocket or an HTTP endpoint.
    NoEndpoints,
}

impl ClientError {
    pub fn message(&self) -> (m: String)
        ensures
            m@ == "No endpoints provided"@,
    {
        String::from_str("No endpoints provided")
    }
}

/// The endpoints a client serves, split by kind (see `get_urls`); fails when there
/// is none of either kind.
pub fn client_endpoints(endpoints: &Vec<String>) -> (r: Result<(Vec<String>, Vec<String>), ClientError>)
    ensures
        keep(endpoints@, ws_pred()).len() == 0 && keep(endpoints@, http_pred()).len() == 0 ==> r == Err::<(Vec<String>, Vec<String>), ClientError>(ClientError::NoEndpoints),
        !(keep(endpoints@, ws_pred()).len() == 0 && keep(endpoints@, http_pred()).len() == 0) ==> (r matches Ok(p)
            && p.0@ == keep(endpoints@, ws_pred()) && p.1@ == keep(endpoints@, http_pred())),
{
    let (ws, http) = get_urls(endpoints);
    if ws.len() == 0 && http.len() == 0 {
        Err(ClientError::NoEndpoints)
    } else {
        Ok((ws, http))
    }
}

/// Checks that an endpoint parses as a URI; the error is the text shown to the user.
pub fn validate_endpoint(endpoint: &str) -> (r: Result<(), String>)
    ensures
        parses_as_uri(endpoint@) ==> r is Ok,
        !parses_as_uri(endpoint@) ==> (r matches Err(m) && m@ == "Invalid endpoint format: "@ + endpoint@),
{
    if uri_parses(endpoint) {
        Ok(())
    } else {
        let mut m = String::from_str("Invalid endpoint format: ");
        m.append(endpoint);
        Err(m)
    }
}

} // verus!
