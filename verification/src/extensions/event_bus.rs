//! The event bus extension; it has nothing to configure.
use vstd::prelude::*;

verus! {

#[derive(Debug, Clone, Copy)]
pub struct EventBus;

#[derive(Debug, Clone, Copy)]
pub struct EventBusConfig;

impl EventBus {
    pub fn new(config: EventBusConfig) -> (e: Self) {
        EventBus
    }
}

} // verus!
