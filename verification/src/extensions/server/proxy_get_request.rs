//! Serving RPC methods at plain `GET` paths: a `GET` of a configured path is turned
//! into a call of its method.
use vstd::prelude::*;
use crate::extensions::client::{has_prefix, starts_with};
use crate::config::keys::{compare_keys, KeyOrder};

verus! {

/// A path served by `GET`, answered by calling `method`.
#[derive(Debug, Clone)]
pub struct ProxyGetRequestMethod {
    pub path: String,
    pub method: String,
}

/// A path that is not absolute.
#[derive(Debug, Clone, Copy, PartialEq, Eq, Structural)]
pub enum ProxyError {
    PathNotAbsolute,
}

impl ProxyError {
    pub fn message(&self) -> (m: String)
        ensures
            m@ == "ProxyGetRequestLayer path must start with `/`"@,
    {
        String::from_str("ProxyGetRequestLayer path must start with `/`")
    }
}

/// Every path starts with `/`.
pub open spec fn paths_absolute(methods: Seq<ProxyGetRequestMethod>) -> bool {
    forall|i: int| 0 <= i < methods.len() ==> has_prefix(#[trigger] methods[i].path@, "/"@)
}

/// Whether every path starts with `/`.
pub fn check_paths(methods: &Vec<ProxyGetRequestMethod>) -> (ok: bool)
    ensures
        ok == paths_absolute(methods@),
{
    let mut i: usize = 0;
    while i < methods.len()
        invariant
            i <= methods.len(),
            forall|k: int| 0 <= k < i ==> has_prefix(#[trigger] methods@[k].path@, "/"@),
        decreases methods.len() - i,
    {
        if !starts_with(methods[i].path.as_str(), "/") {
            return false;
        }
        i = i + 1;
    }
    true
}

/// The paths served by `GET`.
#[derive(Debug, Clone)]
pub struct ProxyGetRequestLayer {
    methods: Vec<ProxyGetRequestMethod>,
}

impl ProxyGetRequestLayer {
    pub closed spec fn methods_view(&self) -> Seq<ProxyGetRequestMethod> {
        self.methods@
    }

    /// The layer for `methods`; every path must start with `/`.
    pub fn new(methods: Vec<ProxyGetRequestMethod>) -> (r: Result<Self, ProxyError>)
        ensures
            paths_absolute(methods@) ==> (r matches Ok(l) && l.methods_view() == methods@),
            !paths_absolute(methods@) ==> r == Err::<Self, ProxyError>(ProxyError::PathNotAbsolute),
    {
        if !check_paths(&methods) {
            return Err(ProxyError::PathNotAbsolute);
        }
        Ok(ProxyGetRequestLayer { methods })
    }

    /// The methods, for the service that this layer wraps.
    pub fn methods(&self) -> (m: &Vec<ProxyGetRequestMethod>)
        ensures
            m@ == self.methods_view(),
    {
        &self.methods
    }
}

/// The method served at `path`: that of the last entry for the path.
pub open spec fn method_at(methods: Seq<ProxyGetRequestMethod>, path: Seq<char>) -> Option<Seq<char>>
    decreases methods.len(),
{
    if methods.len() == 0 {
        None
    } else if methods.last().path@ == path {
        Some(methods.last().method@)
    } else {
        method_at(methods.drop_last(), path)
    }
}

/// A service `inner` behind which `GET`s of the configured paths become method calls.
#[derive(Debug, Clone)]
pub struct ProxyGetRequest<S> {
    inner: S,
    methods: Vec<ProxyGetRequestMethod>,
}

/// Only a path configured exactly is served: the method served at `path` is that of an
/// entry whose path equals `path` character for character, the last such entry, and
/// a path that no entry has (a longer or shorter one included) is served by none.
pub proof fn lemma_method_at_exact(methods: Seq<ProxyGetRequestMethod>, path: Seq<char>)
    ensures
        method_at(methods, path) is None <==> forall|i: int| 0 <= i < methods.len() ==> #[trigger] methods[i].path@ != path,
        method_at(methods, path) matches Some(name) ==> exists|i: int| 0 <= i < methods.len()
            && #[trigger] methods[i].path@ == path && methods[i].method@ == name
            && forall|j: int| i < j < methods.len() ==> #[trigger] methods[j].path@ != path,
    decreases methods.len(),
{
    if methods.len() > 0 {
        let p = methods.drop_last();
        let n = methods.len() - 1;
        lemma_method_at_exact(p, path);
        if methods.last().path@ == path {
            assert(methods[n].path@ == path && methods[n].method@ == methods.last().method@);
        } else {
            assert forall|i: int| 0 <= i < p.len() implies #[trigger] p[i] == methods[i] by {}
            if method_at(p, path) is None {
                assert forall|i: int| 0 <= i < methods.len() implies #[trigger] methods[i].path@ != path by {
                    if i < n {
                        assert(p[i].path@ != path);
                    }
                }
            } else {
                let name = method_at(p, path)->0;
                let i = choose|i: int| 0 <= i < p.len() && #[trigger] p[i].path@ == path && p[i].method@ == name
                    && forall|j: int| i < j < p.len() ==> #[trigger] p[j].path@ != path;
                assert(methods[i] == p[i]);
                assert forall|j: int| i < j < methods.len() implies #[trigger] methods[j].path@ != path by {
                    if j < n {
                        assert(methods[j] == p[j]);
                    }
                }
                assert(!(forall|i: int| 0 <= i < methods.len() ==> #[trigger] methods[i].path@ != path)) by {
                    assert(methods[i].path@ == path);
                }
            }
        }
    }
}

impl<S> ProxyGetRequest<S> {
    pub closed spec fn methods_view(&self) -> Seq<ProxyGetRequestMethod> {
        self.methods@
    }

    pub closed spec fn inner_view(&self) -> S {
        self.inner
    }

    /// The service behind.
    pub fn inner(&self) -> (s: &S)
        ensures
            *s == self.inner_view(),
    {
        &self.inner
    }

    /// The service for `methods` in front of `inner`; every path must start with `/`.
    pub fn new(inner: S, methods: Vec<ProxyGetRequestMethod>) -> (r: Result<Self, ProxyError>)
        ensures
            paths_absolute(methods@) ==> (r matches Ok(p) && p.methods_view() == methods@ && p.inner_view() == inner),
            !paths_absolute(methods@) ==> r is Err,
    {
        if !check_paths(&methods) {
            return Err(ProxyError::PathNotAbsolute);
        }
        Ok(ProxyGetRequest { inner, methods })
    }

    /// The method that a request at `path` calls: one only for a `GET` of a configured
    /// path (the last entry for the path counts); any other request passes through.
    pub fn method_for(&self, path: &str, is_get: bool) -> (m: Option<String>)
        ensures
            match (is_get, method_at(self.methods_view(), path@)) {
                (true, Some(name)) => m matches Some(x) && x@ == name,
                _ => m is None,
            },
            m matches Some(x) ==> is_get && exists|i: int| 0 <= i < self.methods_view().len()
                && #[trigger] self.methods_view()[i].path@ == path@ && self.methods_view()[i].method@ == x@,
            is_get && (exists|i: int| 0 <= i < self.methods_view().len() && #[trigger] self.methods_view()[i].path@ == path@)
                ==> m is Some,
    {
        proof {
            lemma_method_at_exact(self.methods@, path@);
        }
        if !is_get {
            return None;
        }
        let mut i = self.methods.len();
        assert(self.methods@.take(i as int) =~= self.methods@);
        while i > 0
            invariant
                i <= self.methods.len(),
                is_get,
                method_at(self.methods@, path@) == method_at(self.methods@.take(i as int), path@),
            decreases i,
        {
            assert(self.methods@.take(i as int).last() == self.methods@[i - 1]);
            assert(self.methods@.take(i as int).drop_last() =~= self.methods@.take(i - 1));
            if compare_keys(self.methods[i - 1].path.as_str(), path) == KeyOrder::Equal {
                let found = self.methods[i - 1].method.clone();
                assert(method_at(self.methods@.take(i as int), path@) == Some(self.methods@[i - 1].method@));
                return Some(found);
            }
            i = i - 1;
        }
        None
    }

    /// The body of the JSON-RPC call that a request at `path` becomes, if it becomes
    /// one (see `method_for`): the call of the path's method with id 0 and no
    /// parameters.
    pub fn call_body_for(&self, path: &str, is_get: bool) -> (b: Option<Vec<u8>>)
        ensures
            match (is_get, method_at(self.methods_view(), path@)) {
                (true, Some(name)) => b matches Some(x) && x@ == proxy_call_bytes(name),
                _ => b is None,
            },
    {
        match self.method_for(path, is_get) {
            Some(method) => Some(encode_proxy_call(method.as_str())),
            None => None,
        }
    }
}

/// The bytes that `serde_json::to_vec` gives for jsonrpsee's `RequestSer` of a call of
/// `method` with id 0 and no parameters.
pub uninterp spec fn proxy_call_bytes(method: Seq<char>) -> Seq<u8>;

/// `serde_json::to_vec` of jsonrpsee's `RequestSer::borrowed(&Id::Number(0), &method,
/// None)`. Claimed: the bytes depend on `method` alone and are named
/// `proxy_call_bytes(method)`; that serialising this request does not fail (its
/// fields are a version tag, a number, a text and no parameters). The JSON encoding
/// itself, escapes included, is serde_json's and not stated here.
#[verifier::external_body]
fn encode_proxy_call(method: &str) -> (b: Vec<u8>)
    ensures
        b@ == proxy_call_bytes(method@),
{
    serde_json::to_vec(&jsonrpsee::types::RequestSer::borrowed(&jsonrpsee::types::Id::Number(0), &method, None))
        .expect("a request of a text method serialises")
}

} // verus!
