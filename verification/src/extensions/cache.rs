//! The response cache: its default size and time to live.
use vstd::prelude::*;

verus! {

/// The cache extension.
#[derive(Debug, Clone)]
pub struct Cache {
    pub config: CacheConfig,
}

/// The cache's defaults, for methods that set none.
#[derive(Debug, Clone)]
pub struct CacheConfig {
    /// `None` means no cache expiration.
    pub default_ttl_seconds: Option<u64>,
    pub default_size: usize,
}

impl Cache {
    pub fn new(config: CacheConfig) -> (c: Self)
        ensures
            c.config == config,
    {
        Cache { config }
    }
}

/// The size and time to live of a method's cache: the method's own where it sets
/// them, else the defaults. A size of 0 means no cache.
pub fn method_cache_params(config: &CacheConfig, size: Option<usize>, ttl_seconds: Option<u64>) -> (r: (usize, Option<u64>))
    ensures
        r.0 == match size { Some(s) => s, None => config.default_size },
        r.1 == match ttl_seconds { Some(t) => Some(t), None => config.default_ttl_seconds },
{
    let s = match size {
        Some(s) => s,
        None => config.default_size,
    };
    let t = match ttl_seconds {
        Some(t) => Some(t),
        None => config.default_ttl_seconds,
    };
    (s, t)
}

} // verus!
