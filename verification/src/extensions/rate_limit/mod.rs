//! Rate limiting of RPC calls, per client IP and per connection: the rules, the quota
//! that a rule gives, and which limits a connection gets.
use vstd::prelude::*;
use governor::{Jitter, Quota};
use crate::extensions::rate_limit::weight::MethodWeights;

pub mod weight;
pub mod xff;

verus! {

#[verifier::external_type_specification]
#[verifier::external_body]
pub struct ExQuota(governor::Quota);

#[verifier::external_type_specification]
#[verifier::external_body]
pub struct ExJitter(governor::Jitter);

/// The rate limits.
#[derive(Debug, Clone, Default)]
pub struct RateLimitConfig {
    pub ip: Option<Rule>,
    pub connection: Option<Rule>,
    /// Whether the client's IP is taken from the `X-Forwarded-For` header.
    pub use_xff: bool,
}

/// One rate limit.
#[derive(Debug, Clone, Default)]
pub struct Rule {
    /// The maximum number of requests that can be made in a period.
    pub burst: u32,
    /// The period of time, in seconds, in which the burst is allowed.
    pub period_secs: u64,
    /// The maximum delay, in milliseconds, added at random to a call that waits for
    /// the limit, so that waiting calls do not all go at once. E.g. with 1000 an
    /// additional delay of random(0, 1000) milliseconds is added.
    pub jitter_up_to_millis: u64,
}

/// The period of a rule that gives none.
pub fn default_period_secs() -> (p: u64)
    ensures
        p == 1,
{
    1
}

/// The jitter of a rule that gives none.
pub fn default_jitter_up_to_millis() -> (j: u64)
    ensures
        j == 100,
{
    100
}

/// The longest jitter, in milliseconds, that governor can hold: its durations are
/// `u64` nanoseconds.
pub const MAX_JITTER_MILLIS: u64 = 18_446_744_073_709;

/// A rule that the builder accepts: a positive burst in a positive period.
pub open spec fn rule_valid(rule: Rule) -> bool {
    rule.burst > 0 && rule.period_secs > 0
}

/// The rule's jitter is one that governor can hold (see `MAX_JITTER_MILLIS`).
pub open spec fn jitter_fits(rule: Rule) -> bool {
    rule.jitter_up_to_millis <= MAX_JITTER_MILLIS
}

/// The time in nanoseconds after which one more call is allowed, when `burst` calls
/// are allowed per `period_secs` seconds (as a `u64`, which it fits for any period
/// below about 584 years).
pub open spec fn replenish_interval(burst: u32, period_secs: u64) -> u64 {
    ((period_secs as int * 1_000_000_000) / (burst as int)) as u64
}

/// Computes `replenish_interval`.
pub fn replenish_interval_ns(burst: u32, period_secs: u64) -> (ns: u64)
    requires
        burst > 0,
    ensures
        ns == replenish_interval(burst, period_secs),
{
    let total: u128 = (period_secs as u128) * 1_000_000_000u128;
    let per: u128 = total / (burst as u128);
    per as u64
}

/// The quota in `Quota::with_period(Duration::from_nanos(ns))`, for a nonzero `ns`.
pub uninterp spec fn quota_with_period(ns: u64) -> Quota;

/// What `Quota::allow_burst(q, burst)` returns.
pub uninterp spec fn quota_allow_burst(q: Quota, burst: u32) -> Quota;

/// What `Jitter::up_to(Duration::from_millis(ms))` returns.
pub uninterp spec fn jitter_up_to(ms: u64) -> Jitter;

/// `governor::Quota::with_period` on a period of `ns` nanoseconds, which must not be
/// zero (governor's source answers `None` exactly for a zero period). Claimed: the
/// quota is named `quota_with_period(ns)`.
#[verifier::external_body]
fn with_period(ns: u64) -> (q: Quota)
    requires
        ns != 0,
    ensures
        q == quota_with_period(ns),
{
    Quota::with_period(std::time::Duration::from_nanos(ns)).expect("a nonzero period gives a quota")
}

/// `governor::Quota::allow_burst`. Claimed: its result is named
/// `quota_allow_burst(q, burst)`.
#[verifier::external_body]
fn allow_burst(q: Quota, burst: u32) -> (r: Quota)
    requires
        burst > 0,
    ensures
        r == quota_allow_burst(q, burst),
{
    q.allow_burst(std::num::NonZeroU32::new(burst).expect("a positive burst"))
}

/// `governor::Jitter::up_to` on a duration of `ms` milliseconds. Claimed: its result
/// is named `jitter_up_to(ms)`. Governor converts the duration to `u64` nanoseconds
/// and panics where it does not fit, so `ms` is at most `MAX_JITTER_MILLIS`.
#[verifier::external_body]
pub(crate) fn jitter_up_to_millis(ms: u64) -> (j: Jitter)
    requires
        ms <= MAX_JITTER_MILLIS,
    ensures
        j == jitter_up_to(ms),
{
    Jitter::up_to(std::time::Duration::from_millis(ms))
}

/// The quota that allows `burst` calls per `period_secs` seconds.
pub open spec fn rule_quota(burst: u32, period_secs: u64) -> Quota {
    quota_allow_burst(quota_with_period(replenish_interval(burst, period_secs)), burst)
}

/// The quota that allows `burst` calls per `period_secs` seconds: one call more per
/// `replenish_interval`, up to `burst` at once. The interval must not be zero.
pub fn build_quota(burst: u32, period_secs: u64) -> (q: Quota)
    requires
        burst > 0,
        replenish_interval(burst, period_secs) != 0,
    ensures
        q == rule_quota(burst, period_secs),
{
    let ns = replenish_interval_ns(burst, period_secs);
    allow_burst(with_period(ns), burst)
}

/// The limit of one connection: `burst` calls per `period_secs`, each call weighted.
pub struct ConnectionRateLimitLayer {
    pub burst: u32,
    pub period_secs: u64,
    pub jitter: Jitter,
    pub method_weights: MethodWeights,
}

impl ConnectionRateLimitLayer {
    pub fn new(burst: u32, period_secs: u64, jitter: Jitter, method_weights: MethodWeights) -> (l: Self)
        ensures
            l.burst == burst,
            l.period_secs == period_secs,
            l.jitter == jitter,
            l.method_weights == method_weights,
    {
        ConnectionRateLimitLayer { burst, period_secs, jitter, method_weights }
    }
}

/// The limit of the calls from one IP: the IP, the jitter of its rule, and the weight of
/// each method.
pub struct IpRateLimitLayer {
    pub ip_addr: String,
    pub jitter: Jitter,
    pub method_weights: MethodWeights,
}

impl IpRateLimitLayer {
    pub fn new(ip_addr: String, jitter: Jitter, method_weights: MethodWeights) -> (l: Self)
        ensures
            l.ip_addr == ip_addr,
            l.jitter == jitter,
            l.method_weights == method_weights,
    {
        IpRateLimitLayer { ip_addr, jitter, method_weights }
    }
}

/// What the rate limits of the gateway are made from: the rules, and, for the limit
/// per IP (one limiter shared by all connections), its quota and jitter.
pub struct RateLimitBuilder {
    config: RateLimitConfig,
    ip_jitter: Option<Jitter>,
    ip_quota: Option<Quota>,
}

impl RateLimitBuilder {
    #[verifier::type_invariant]
    closed spec fn inv(self) -> bool {
        &&& self.config.ip matches Some(rule) ==> rule_valid(rule) && jitter_fits(rule)
        &&& self.config.connection matches Some(rule) ==> rule_valid(rule)
    }

    pub closed spec fn config_view(&self) -> RateLimitConfig {
        self.config
    }

    pub closed spec fn ip_jitter_view(&self) -> Option<Jitter> {
        self.ip_jitter
    }

    pub closed spec fn ip_quota_view(&self) -> Option<Quota> {
        self.ip_quota
    }

    /// A builder for the rules of `config`, which must be valid (see `rule_valid`; the
    /// per-IP rule must also give a nonzero interval). Governor panics on a rule
    /// outside these bounds.
    pub fn new(config: RateLimitConfig) -> (b: Self)
        requires
            config.ip matches Some(rule) ==> rule_valid(rule) && jitter_fits(rule)
                && replenish_interval(rule.burst, rule.period_secs) != 0,
            config.connection matches Some(rule) ==> rule_valid(rule),
        ensures
            b.config_view() == config,
            match config.ip {
                Some(rule) => b.ip_quota_view() == Some(rule_quota(rule.burst, rule.period_secs))
                    && b.ip_jitter_view() == Some(jitter_up_to(rule.jitter_up_to_millis)),
                None => b.ip_quota_view() is None && b.ip_jitter_view() is None,
            },
    {
        match &config.ip {
            Some(rule) => {
                let quota = build_quota(rule.burst, rule.period_secs);
                let jitter = jitter_up_to_millis(rule.jitter_up_to_millis);
                RateLimitBuilder { config, ip_jitter: Some(jitter), ip_quota: Some(quota) }
            },
            None => RateLimitBuilder { config, ip_jitter: None, ip_quota: None },
        }
    }

    /// The quota of the limiter per IP, if there is a per-IP rule.
    pub fn ip_quota(&self) -> (q: Option<Quota>)
        ensures
            q == self.ip_quota_view(),
    {
        self.ip_quota
    }

    /// The limit of a connection, if there is a rule for connections; its jitter must
    /// fit (governor panics on a longer one).
    pub fn connection_limit(&self, method_weights: MethodWeights) -> (l: Option<ConnectionRateLimitLayer>)
        requires
            self.config_view().connection matches Some(rule) ==> jitter_fits(rule),
        ensures
            match self.config_view().connection {
                Some(rule) => l matches Some(layer) && layer.burst == rule.burst && layer.period_secs == rule.period_secs
                    && layer.jitter == jitter_up_to(rule.jitter_up_to_millis) && layer.method_weights == method_weights,
                None => l is None,
            },
    {
        proof {
            use_type_invariant(self);
        }
        match &self.config.connection {
            Some(rule) => {
                let jitter = jitter_up_to_millis(rule.jitter_up_to_millis);
                Some(ConnectionRateLimitLayer::new(rule.burst, rule.period_secs, jitter, method_weights))
            },
            None => None,
        }
    }

    /// The limit of the calls from `remote_ip`, if there is a rule per IP.
    pub fn ip_limit(&self, remote_ip: String, method_weights: MethodWeights) -> (l: Option<IpRateLimitLayer>)
        ensures
            match self.ip_jitter_view() {
                Some(j) => l matches Some(layer) && layer.ip_addr == remote_ip && layer.jitter == j
                    && layer.method_weights == method_weights,
                None => l is None,
            },
    {
        match self.ip_jitter {
            Some(j) => Some(IpRateLimitLayer::new(remote_ip, j, method_weights)),
            None => None,
        }
    }

    /// Whether to use the X-Forwarded-For header to get the remote ip.
    pub fn use_xff(&self) -> (b: bool)
        ensures
            b == self.config_view().use_xff,
    {
        self.config.use_xff
    }
}

} // verus!
