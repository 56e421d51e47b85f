//! Merging identical upstream subscriptions: how long a merged subscription is kept
//! once nobody listens.
use vstd::prelude::*;

verus! {

#[derive(Debug, Clone)]
pub struct MergeSubscription {
    pub config: MergeSubscriptionConfig,
}

#[derive(Debug, Clone)]
pub struct MergeSubscriptionConfig {
    pub keep_alive_seconds: Option<u64>,
}

impl MergeSubscription {
    pub fn new(config: MergeSubscriptionConfig) -> (m: Self)
        ensures
            m.config == config,
    {
        MergeSubscription { config }
    }
}

} // verus!
