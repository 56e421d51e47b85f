//! The definitions of the RPC methods, subscriptions and aliases that the gateway
//! serves.
use vstd::prelude::*;
use crate::config::merge::{Keyed, merged, merge_by_key};
use crate::config::keys::{compare_keys, KeyOrder};
use crate::extensions::client::http::{lowercase, to_lowercase};

verus! {

#[verifier::external_type_specification]
#[verifier::external_body]
pub struct ExJsonValue(serde_json::Value);

/// Caching of a method's responses.
#[derive(Clone, Debug, PartialEq, Eq)]
pub struct CacheParams {
    pub size: Option<usize>,
    pub ttl_seconds: Option<u64>,
}

/// One parameter of a method.
#[derive(Clone, Debug, PartialEq, Eq)]
pub struct MethodParam {
    pub name: String,
    pub ty: String,
    pub optional: bool,
    pub inject: bool,
}

/// One RPC method.
#[derive(Debug)]
pub struct RpcMethod {
    pub method: String,
    pub cache: Option<CacheParams>,
    pub params: Vec<MethodParam>,
    /// A fixed response, if the method has one.
    pub response: Option<serde_json::Value>,
    pub delay_ms: Option<u64>,
    /// This should not exceed max cell capacity. If it does, method will return
    /// error. Burst size is the max cell capacity. If rate limit is not configured,
    /// this will be ignored. E.g. if rate limit is configured as 10r per 2s and
    /// rate_limit_weight is 10, then only 1 call is allowed per 2s. If
    /// rate_limit_weight is 5, then 2 calls are allowed per 2s. If
    /// rate_limit_weight is greater than 10, then method will return error "rate
    /// limit exceeded". The default is 1.
    pub rate_limit_weight: u32,
}

/// The weight a method has when its definition gives none.
pub fn default_rate_limit_weight() -> (w: u32)
    ensures
        w == 1,
{
    1
}

/// How a merged subscription combines values.
#[derive(Copy, Clone, Debug, PartialEq, Eq, Structural)]
pub enum MergeStrategy {
    /// Replace old value with new value.
    Replace,
    /// Merge old storage changes with new changes.
    MergeStorageChanges,
}

/// One RPC subscription.
#[derive(Debug)]
pub struct RpcSubscription {
    pub subscribe: String,
    pub unsubscribe: String,
    pub name: String,
    pub merge_strategy: Option<MergeStrategy>,
}

/// The methods, subscriptions and aliases that the gateway serves.
#[derive(Debug)]
pub struct RpcDefinitions {
    pub methods: Vec<RpcMethod>,
    pub subscriptions: Vec<RpcSubscription>,
    pub aliases: Vec<(String, String)>,
}

impl Keyed for RpcMethod {
    open spec fn key_view(&self) -> Seq<char> {
        self.method@
    }

    fn key(&self) -> (k: &str) {
        self.method.as_str()
    }
}

impl Keyed for RpcSubscription {
    open spec fn key_view(&self) -> Seq<char> {
        self.name@
    }

    fn key(&self) -> (k: &str) {
        self.name.as_str()
    }
}

impl Keyed for (String, String) {
    open spec fn key_view(&self) -> Seq<char> {
        self.0@
    }

    fn key(&self) -> (k: &str) {
        self.0.as_str()
    }
}

impl RpcDefinitions {
    /// The definitions given by `methods`, `subscriptions` and `aliases` over the
    /// definitions `base`, if there is one: each list of the base is ordered by name,
    /// then each given entry replaces the entry of its name or is inserted in order
    /// (see `merged`). Without a base the given lists stand as they are.
    pub fn from_parts(
        base: Option<RpcDefinitions>,
        methods: Vec<RpcMethod>,
        subscriptions: Vec<RpcSubscription>,
        aliases: Vec<(String, String)>,
    ) -> (r: RpcDefinitions)
        ensures
            match base {
                Some(b) => {
                    &&& r.methods@ == merged(b.methods@, methods@)
                    &&& r.subscriptions@ == merged(b.subscriptions@, subscriptions@)
                    &&& r.aliases@ == merged(b.aliases@, aliases@)
                },
                None => {
                    &&& r.methods@ == methods@
                    &&& r.subscriptions@ == subscriptions@
                    &&& r.aliases@ == aliases@
                },
            },
    {
        match base {
            Some(b) => RpcDefinitions {
                methods: merge_by_key(b.methods, methods),
                subscriptions: merge_by_key(b.subscriptions, subscriptions),
                aliases: merge_by_key(b.aliases, aliases),
            },
            None => RpcDefinitions { methods, subscriptions, aliases },
        }
    }
}

/// Where the base definitions named in a configuration come from.
#[derive(Debug, Clone, Copy, PartialEq, Eq, Structural)]
pub enum BaseChoice {
    /// The built-in Substrate definitions.
    Substrate,
    /// The built-in Ethereum definitions.
    Ethereum,
    /// The definitions in the file at the given path.
    File,
}

/// The base that `path` names: `sub` or `substrate`, and `eth` or `ethereum`, in any
/// case, name the built-in definitions; any other text is a file's path.
pub open spec fn base_choice_of(path: Seq<char>) -> BaseChoice {
    let l = lowercase(path);
    if l == "sub"@ || l == "substrate"@ {
        BaseChoice::Substrate
    } else if l == "eth"@ || l == "ethereum"@ {
        BaseChoice::Ethereum
    } else {
        BaseChoice::File
    }
}

/// The base that `path` names (see `base_choice_of`).
pub fn base_choice(path: &str) -> (c: BaseChoice)
    ensures
        c == base_choice_of(path@),
{
    let l = to_lowercase(path);
    let l = l.as_str();
    if compare_keys(l, "sub") == KeyOrder::Equal || compare_keys(l, "substrate") == KeyOrder::Equal {
        BaseChoice::Substrate
    } else if compare_keys(l, "eth") == KeyOrder::Equal || compare_keys(l, "ethereum") == KeyOrder::Equal {
        BaseChoice::Ethereum
    } else {
        BaseChoice::File
    }
}

/// How many of `params` are injected.
pub open spec fn inject_count(params: Seq<MethodParam>) -> nat
    decreases params.len(),
{
    if params.len() == 0 {
        0
    } else {
        inject_count(params.drop_last()) + if params.last().inject { 1nat } else { 0nat }
    }
}

/// Some required parameter comes after an optional one.
pub open spec fn required_after_optional(params: Seq<MethodParam>) -> bool {
    exists|i: int, j: int| 0 <= i < j < params.len() && #[trigger] params[i].optional && !#[trigger] params[j].optional
}

/// What is wrong with a method's parameters.
#[derive(Debug, Clone, Copy, PartialEq, Eq, Structural)]
pub enum ParamsErrorKind {
    /// More than one parameter is injected.
    MoreThanOneInject,
    /// A required parameter follows an optional one.
    RequiredAfterOptional,
}

/// The check of a method's parameters: at most one may be injected, and the optional
/// ones come last.
pub open spec fn params_check(params: Seq<MethodParam>) -> Option<ParamsErrorKind> {
    if inject_count(params) > 1 {
        Some(ParamsErrorKind::MoreThanOneInject)
    } else if required_after_optional(params) {
        Some(ParamsErrorKind::RequiredAfterOptional)
    } else {
        None
    }
}

/// A method whose parameters are not valid.
#[derive(Debug)]
pub struct ParamsError {
    pub method: String,
    pub kind: ParamsErrorKind,
}

impl ParamsError {
    /// The text of the error.
    pub fn message(&self) -> (m: String)
        ensures
            m@ == params_error_message(self.method@, self.kind),
    {
        let mut m = String::from_str("method ");
        m.append(self.method.as_str());
        match self.kind {
            ParamsErrorKind::MoreThanOneInject => m.append(" has more than one inject param"),
            ParamsErrorKind::RequiredAfterOptional => m.append(" has required param after optional param"),
        }
        m
    }
}

pub open spec fn params_error_message(method: Seq<char>, kind: ParamsErrorKind) -> Seq<char> {
    "method "@ + method + match kind {
        ParamsErrorKind::MoreThanOneInject => " has more than one inject param"@,
        ParamsErrorKind::RequiredAfterOptional => " has required param after optional param"@,
    }
}

/// Counts the injected parameters.
pub fn count_inject(params: &[MethodParam]) -> (n: usize)
    ensures
        n == inject_count(params@),
{
    let mut n: usize = 0;
    let mut i: usize = 0;
    assert(params@.take(0) =~= Seq::<MethodParam>::empty());
    while i < params.len()
        invariant
            i <= params.len(),
            n == inject_count(params@.take(i as int)),
            n <= i,
        decreases params.len() - i,
    {
        assert(params@.take(i + 1).drop_last() =~= params@.take(i as int));
        if params[i].inject {
            n = n + 1;
        }
        i = i + 1;
    }
    assert(params@.take(i as int) =~= params@);
    n
}

/// Finds whether a required parameter follows an optional one.
pub fn has_required_after_optional(params: &[MethodParam]) -> (b: bool)
    ensures
        b == required_after_optional(params@),
{
    let mut has_optional = false;
    let mut i: usize = 0;
    while i < params.len()
        invariant
            i <= params.len(),
            has_optional == exists|k: int| 0 <= k < i && #[trigger] params@[k].optional,
            !exists|a: int, c: int| 0 <= a < c < i && #[trigger] params@[a].optional && !#[trigger] params@[c].optional,
        decreases params.len() - i,
    {
        if params[i].optional {
            has_optional = true;
        } else if has_optional {
            assert(params@[i as int].optional == false);
            return true;
        }
        i = i + 1;
    }
    false
}

/// Checks a method's parameters: at most one injected, no required one after an
/// optional one (the first of these two rules is checked first).
pub fn validate_params_with_name(method_name: &str, params: &[MethodParam]) -> (r: Result<(), ParamsError>)
    ensures
        match params_check(params@) {
            None => r is Ok,
            Some(kind) => r matches Err(e) && e.kind == kind && e.method@ == method_name@,
        },
{
    if count_inject(params) > 1 {
        return Err(ParamsError { method: method_name.to_owned(), kind: ParamsErrorKind::MoreThanOneInject });
    }
    if has_required_after_optional(params) {
        return Err(ParamsError { method: method_name.to_owned(), kind: ParamsErrorKind::RequiredAfterOptional });
    }
    Ok(())
}

} // verus!
