//! HTTP endpoints: which of the configured endpoints are HTTP ones, and the
//! round-robin choice of the endpoint that takes the next request.
use vstd::prelude::*;
use crate::extensions::client::{has_prefix, starts_with, keep};

verus! {

/// The lower-case form of `s` (`str::to_lowercase`, by Unicode's rules).
pub uninterp spec fn lowercase(s: Seq<char>) -> Seq<char>;

/// `str::to_lowercase`. Claimed: its result depends on `s` alone, and is named
/// `lowercase`; the Unicode case mapping itself is not stated here.
#[verifier::external_body]
pub(crate) fn to_lowercase(s: &str) -> (r: String)
    ensures
        r@ == lowercase(s@),
{
    s.to_lowercase()
}

/// An endpoint that the HTTP client serves: its lower-case form starts with
/// `http://` or `https://`.
pub open spec fn is_http_endpoint(s: Seq<char>) -> bool {
    has_prefix(lowercase(s), "http://"@) || has_prefix(lowercase(s), "https://"@)
}

pub open spec fn http_endpoint_pred() -> spec_fn(String) -> bool {
    |e: String| is_http_endpoint(e@)
}

pub open spec fn other_endpoint_pred() -> spec_fn(String) -> bool {
    |e: String| !is_http_endpoint(e@)
}

/// Splits `endpoints` into those the HTTP client serves and the others, each in
/// order.
pub fn split_http_endpoints(endpoints: Vec<String>) -> (r: (Vec<String>, Vec<String>))
    ensures
        r.0@ == keep(endpoints@, http_endpoint_pred()),
        r.1@ == keep(endpoints@, other_endpoint_pred()),
{
    let ghost orig = endpoints@;
    let mut endpoints = endpoints;
    let mut http: Vec<String> = Vec::new();
    let mut others: Vec<String> = Vec::new();
    let ghost mut n: int = 0;
    assert(orig.take(0) =~= Seq::<String>::empty());
    assert(orig.skip(0) =~= orig);
    while endpoints.len() > 0
        invariant
            0 <= n <= orig.len(),
            endpoints@ == orig.skip(n),
            http@ == keep(orig.take(n), http_endpoint_pred()),
            others@ == keep(orig.take(n), other_endpoint_pred()),
        decreases endpoints.len(),
    {
        let url = endpoints.remove(0);
        let lower = to_lowercase(url.as_str());
        let is_http = starts_with(lower.as_str(), "http://") || starts_with(lower.as_str(), "https://");
        proof {
            assert(orig.take(n + 1).drop_last() =~= orig.take(n));
            assert(orig.take(n + 1).last() == url);
            assert(orig.skip(n).drop_first() =~= orig.skip(n + 1));
        }
        if is_http {
            http.push(url);
        } else {
            others.push(url);
        }
        proof {
            n = n + 1;
        }
    }
    assert(orig.take(n) =~= orig);
    (http, others)
}

/// A counter that picks targets in turn among `len` of them.
#[derive(Debug)]
pub struct RoundRobin {
    next: usize,
}

impl RoundRobin {
    pub closed spec fn count(&self) -> usize {
        self.next
    }

    pub fn new() -> (r: Self)
        ensures
            r.count() == 0,
    {
        RoundRobin { next: 0 }
    }

    /// The target of the next call among `len`: the calls made so far modulo `len`.
    /// The count wraps around at `usize::MAX`, as an atomic counter does.
    pub fn pick(&mut self, len: usize) -> (i: usize)
        requires
            len > 0,
        ensures
            i == old(self).count() % len,
            i < len,
            final(self).count() == old(self).count().wrapping_add(1),
        no_unwind
    {
        let i = self.next % len;
        self.next = if self.next == usize::MAX { 0 } else { self.next + 1 };
        i
    }
}

/// Consecutive picks go round the targets in order: the pick after target `i` is
/// target `i + 1`, or the first after the last (as long as the count does not wrap).
pub proof fn lemma_round_robin_cycles(count: usize, len: usize)
    requires
        len > 0,
        count < usize::MAX,
    ensures
        ((count + 1) as usize) % len == if count % len + 1 == len { 0 } else { count % len + 1 },
{
    assert(((count + 1) as usize) == count + 1);
    if len == 1 {
        assert((count + 1) % 1 == 0) by (nonlinear_arith);
        assert(count % 1 == 0) by (nonlinear_arith);
    } else {
        vstd::arithmetic::div_mod::lemma_add_mod_noop(count as int, 1, len as int);
        vstd::arithmetic::div_mod::lemma_mod_bound(count as int, len as int);
        vstd::arithmetic::div_mod::lemma_small_mod(1, len as nat);
        if count % len + 1 == len {
            vstd::arithmetic::div_mod::lemma_mod_self_0(len as int);
        } else {
            vstd::arithmetic::div_mod::lemma_small_mod((count % len + 1) as nat, len as nat);
        }
    }
}

} // verus!
