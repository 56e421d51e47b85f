//! The gateway's configuration: the RPC definitions, the middlewares, and the checks
//! that a configuration must pass.
use vstd::prelude::*;
use crate::config::rpc::{RpcMethod, inject_count, required_after_optional, count_inject, has_required_after_optional};

pub mod env;
pub mod keys;
pub mod merge;
pub mod rpc;
pub mod template;

verus! {

/// The method and subscription middlewares, by name, in the order they run.
#[derive(Debug)]
pub struct MiddlewaresConfig {
    pub methods: Vec<String>,
    pub subscriptions: Vec<String>,
}

/// Whether `s` parses as an `http::Uri`, the type of an endpoint's address.
pub uninterp spec fn parses_as_uri(s: Seq<char>) -> bool;

/// Parses `s` as an `http::Uri` (its `FromStr`) and tells whether that succeeded.
/// Claimed: the answer depends on `s` alone, and is named `parses_as_uri`. Which texts
/// parse is left to `http`'s parser and not stated here.
#[verifier::external_body]
pub(crate) fn uri_parses(s: &str) -> (ok: bool)
    ensures
        ok == parses_as_uri(s@),
{
    s.parse::<http::Uri>().is_ok()
}

/// What is wrong with a configuration.
#[derive(Debug, Clone, Copy, PartialEq, Eq, Structural)]
pub enum ConfigErrorKind {
    InvalidEndpoint,
    MoreThanOneInject,
    RequiredAfterOptional,
}

/// A configuration that did not pass the checks, and the endpoint or method at fault.
#[derive(Debug)]
pub struct ConfigError {
    pub kind: ConfigErrorKind,
    pub subject: String,
}

pub open spec fn config_error_message(kind: ConfigErrorKind, subject: Seq<char>) -> Seq<char> {
    match kind {
        ConfigErrorKind::InvalidEndpoint => "Invalid endpoint "@ + subject,
        ConfigErrorKind::MoreThanOneInject => "Method "@ + subject + " has more than one inject param"@,
        ConfigErrorKind::RequiredAfterOptional => "Method "@ + subject + " has required param after optional param"@,
    }
}

impl ConfigError {
    pub fn message(&self) -> (m: String)
        ensures
            m@ == config_error_message(self.kind, self.subject@),
    {
        match self.kind {
            ConfigErrorKind::InvalidEndpoint => {
                let mut m = String::from_str("Invalid endpoint ");
                m.append(self.subject.as_str());
                m
            },
            ConfigErrorKind::MoreThanOneInject => {
                let mut m = String::from_str("Method ");
                m.append(self.subject.as_str());
                m.append(" has more than one inject param");
                m
            },
            ConfigErrorKind::RequiredAfterOptional => {
                let mut m = String::from_str("Method ");
                m.append(self.subject.as_str());
                m.append(" has required param after optional param");
                m
            },
        }
    }
}

/// The first endpoint that does not parse.
pub open spec fn first_invalid_endpoint(endpoints: Seq<String>) -> Option<Seq<char>>
    decreases endpoints.len(),
{
    if endpoints.len() == 0 {
        None
    } else if !parses_as_uri(endpoints[0]@) {
        Some(endpoints[0]@)
    } else {
        first_invalid_endpoint(endpoints.drop_first())
    }
}

/// The name of the first method with more than one injected parameter.
pub open spec fn first_multi_inject(methods: Seq<RpcMethod>) -> Option<Seq<char>>
    decreases methods.len(),
{
    if methods.len() == 0 {
        None
    } else if inject_count(methods[0].params@) > 1 {
        Some(methods[0].method@)
    } else {
        first_multi_inject(methods.drop_first())
    }
}

/// The name of the first method with a required parameter after an optional one.
pub open spec fn first_bad_order(methods: Seq<RpcMethod>) -> Option<Seq<char>>
    decreases methods.len(),
{
    if methods.len() == 0 {
        None
    } else if required_after_optional(methods[0].params@) {
        Some(methods[0].method@)
    } else {
        first_bad_order(methods.drop_first())
    }
}

/// The checks of a configuration, in the order they are made: every endpoint parses,
/// no method has more than one injected parameter, no method has a required
/// parameter after an optional one.
pub open spec fn config_check(endpoints: Seq<String>, methods: Seq<RpcMethod>) -> Option<(ConfigErrorKind, Seq<char>)> {
    match first_invalid_endpoint(endpoints) {
        Some(e) => Some((ConfigErrorKind::InvalidEndpoint, e)),
        None => match first_multi_inject(methods) {
            Some(m) => Some((ConfigErrorKind::MoreThanOneInject, m)),
            None => match first_bad_order(methods) {
                Some(m) => Some((ConfigErrorKind::RequiredAfterOptional, m)),
                None => None,
            },
        },
    }
}

/// The first endpoint that does not parse is what `first_invalid_endpoint` finds: there
/// is one exactly when some endpoint does not parse, and it is the earliest such.
proof fn lemma_first_invalid_endpoint(endpoints: Seq<String>)
    ensures
        first_invalid_endpoint(endpoints) is None <==> forall|i: int| 0 <= i < endpoints.len() ==> parses_as_uri(#[trigger] endpoints[i]@),
        first_invalid_endpoint(endpoints) matches Some(x) ==> exists|j: int| 0 <= j < endpoints.len()
            && #[trigger] endpoints[j]@ == x && !parses_as_uri(x)
            && forall|k: int| 0 <= k < j ==> parses_as_uri(#[trigger] endpoints[k]@),
    decreases endpoints.len(),
{
    if endpoints.len() > 0 {
        let r = endpoints.drop_first();
        lemma_first_invalid_endpoint(r);
        assert forall|i: int| 0 <= i < r.len() implies #[trigger] r[i] == endpoints[i + 1] by {}
        if parses_as_uri(endpoints[0]@) {
            if first_invalid_endpoint(r) is None {
                assert forall|i: int| 0 <= i < endpoints.len() implies parses_as_uri(#[trigger] endpoints[i]@) by {
                    if i > 0 {
                        assert(r[i - 1] == endpoints[i]);
                    }
                }
            } else {
                let x = first_invalid_endpoint(r)->0;
                let j = choose|j: int| 0 <= j < r.len() && #[trigger] r[j]@ == x && !parses_as_uri(x)
                    && forall|k: int| 0 <= k < j ==> parses_as_uri(#[trigger] r[k]@);
                assert(endpoints[j + 1]@ == x);
                assert forall|k: int| 0 <= k < j + 1 implies parses_as_uri(#[trigger] endpoints[k]@) by {
                    if k > 0 {
                        assert(r[k - 1] == endpoints[k]);
                    }
                }
            }
        }
    }
}

/// A configuration with an endpoint that does not parse is rejected for it, whatever
/// its methods: the check names the earliest such endpoint. A configuration whose
/// endpoints all parse is not rejected for its endpoints.
pub proof fn lemma_invalid_endpoint_rejected(endpoints: Seq<String>, methods: Seq<RpcMethod>)
    ensures
        (exists|i: int| 0 <= i < endpoints.len() && !parses_as_uri(#[trigger] endpoints[i]@)) ==> exists|j: int|
            0 <= j < endpoints.len() && !parses_as_uri(#[trigger] endpoints[j]@)
            && (forall|k: int| 0 <= k < j ==> parses_as_uri(#[trigger] endpoints[k]@))
            && config_check(endpoints, methods) == Some((ConfigErrorKind::InvalidEndpoint, endpoints[j]@)),
        (forall|i: int| 0 <= i < endpoints.len() ==> parses_as_uri(#[trigger] endpoints[i]@)) ==> !(config_check(endpoints, methods)
            matches Some((kind, _)) && kind == ConfigErrorKind::InvalidEndpoint),
{
    lemma_first_invalid_endpoint(endpoints);
}

/// Checks the client's endpoints and the RPC methods of a configuration (see
/// `config_check`).
pub fn validate_config(endpoints: &Vec<String>, methods: &Vec<RpcMethod>) -> (r: Result<(), ConfigError>)
    ensures
        match config_check(endpoints@, methods@) {
            None => r is Ok,
            Some((kind, subject)) => r matches Err(e) && e.kind == kind && e.subject@ == subject,
        },
        (exists|i: int| 0 <= i < endpoints@.len() && !parses_as_uri(#[trigger] endpoints@[i]@)) ==> (r matches Err(e)
            && e.kind == ConfigErrorKind::InvalidEndpoint && !parses_as_uri(e.subject@)),
{
    proof {
        lemma_first_invalid_endpoint(endpoints@);
    }
    let mut i: usize = 0;
    assert(endpoints@.skip(0) =~= endpoints@);
    while i < endpoints.len()
        invariant
            i <= endpoints.len(),
            first_invalid_endpoint(endpoints@) == first_invalid_endpoint(endpoints@.skip(i as int)),
        decreases endpoints.len() - i,
    {
        assert(endpoints@.skip(i as int)[0] == endpoints@[i as int]);
        assert(endpoints@.skip(i as int).drop_first() =~= endpoints@.skip(i + 1));
        if !uri_parses(endpoints[i].as_str()) {
            return Err(ConfigError { kind: ConfigErrorKind::InvalidEndpoint, subject: endpoints[i].clone() });
        }
        i = i + 1;
    }
    assert(endpoints@.skip(i as int).len() == 0);
    let mut i: usize = 0;
    assert(methods@.skip(0) =~= methods@);
    while i < methods.len()
        invariant
            i <= methods.len(),
            first_multi_inject(methods@) == first_multi_inject(methods@.skip(i as int)),
            first_invalid_endpoint(endpoints@) is None,
            forall|k: int| 0 <= k < endpoints@.len() ==> parses_as_uri(#[trigger] endpoints@[k]@),
        decreases methods.len() - i,
    {
        assert(methods@.skip(i as int)[0] == methods@[i as int]);
        assert(methods@.skip(i as int).drop_first() =~= methods@.skip(i + 1));
        if count_inject(methods[i].params.as_slice()) > 1 {
            return Err(ConfigError { kind: ConfigErrorKind::MoreThanOneInject, subject: methods[i].method.clone() });
        }
        i = i + 1;
    }
    assert(methods@.skip(i as int).len() == 0);
    let mut i: usize = 0;
    while i < methods.len()
        invariant
            i <= methods.len(),
            first_bad_order(methods@) == first_bad_order(methods@.skip(i as int)),
            first_multi_inject(methods@) is None,
            first_invalid_endpoint(endpoints@) is None,
            forall|k: int| 0 <= k < endpoints@.len() ==> parses_as_uri(#[trigger] endpoints@[k]@),
        decreases methods.len() - i,
    {
        assert(methods@.skip(i as int)[0] == methods@[i as int]);
        assert(methods@.skip(i as int).drop_first() =~= methods@.skip(i + 1));
        if has_required_after_optional(methods[i].params.as_slice()) {
            return Err(ConfigError { kind: ConfigErrorKind::RequiredAfterOptional, subject: methods[i].method.clone() });
        }
        i = i + 1;
    }
    Ok(())
}

} // verus!
