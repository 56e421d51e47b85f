//! Merging identical upstream subscriptions (the extension under its plural name).
use vstd::prelude::*;

verus! {

#[derive(Debug, Clone)]
pub struct MergeSubscriptions {
    config: MergeSubscriptionsConfig,
}

#[derive(Debug, Clone)]
pub struct MergeSubscriptionsConfig {
    pub keep_alive_seconds: Option<u64>,
}

impl MergeSubscriptions {
    pub closed spec fn config_view(&self) -> MergeSubscriptionsConfig {
        self.config
    }

    pub fn new(config: MergeSubscriptionsConfig) -> (m: Self)
        ensures
            m.config_view() == config,
    {
        MergeSubscriptions { config }
    }

    /// How long a merged subscription is kept once nobody listens, if set.
    pub fn keep_alive_seconds(&self) -> (s: Option<u64>)
        ensures
            s == self.config_view().keep_alive_seconds,
    {
        self.config.keep_alive_seconds
    }
}

} // verus!
