//! Checking the gateway's responses against each endpoint's, except for some methods.
use vstd::prelude::*;
use crate::config::keys::{compare_keys, KeyOrder};

verus! {

#[derive(Debug, Clone, Default)]
pub struct Validate {
    pub config: ValidateConfig,
}

#[derive(Debug, Clone, Default)]
pub struct ValidateConfig {
    pub ignore_methods: Vec<String>,
}

/// `method` is among `methods`.
pub open spec fn listed(methods: Seq<String>, method: Seq<char>) -> bool {
    exists|i: int| 0 <= i < methods.len() && #[trigger] methods[i]@ == method
}

impl ValidateConfig {
    /// Whether responses to `method` are not checked.
    pub fn ignores(&self, method: &str) -> (b: bool)
        ensures
            b == listed(self.ignore_methods@, method@),
    {
        let mut i: usize = 0;
        while i < self.ignore_methods.len()
            invariant
                i <= self.ignore_methods.len(),
                forall|k: int| 0 <= k < i ==> #[trigger] self.ignore_methods@[k]@ != method@,
            decreases self.ignore_methods.len() - i,
        {
            if compare_keys(self.ignore_methods[i].as_str(), method) == KeyOrder::Equal {
                return true;
            }
            i = i + 1;
        }
        false
    }
}

impl Validate {
    pub fn new(config: ValidateConfig) -> (v: Self)
        ensures
            v.config == config,
    {
        Validate { config }
    }

    /// Whether responses to `method` are not checked: it is one of the ignored methods.
    pub fn ignore(&self, method: &String) -> (b: bool)
        ensures
            b == listed(self.config.ignore_methods@, method@),
    {
        self.config.ignores(method.as_str())
    }
}

} // verus!
