//! The single-connection upstream client: the endpoints it rotates through, and what
//! it does when a call fails.
use vstd::prelude::*;
use crate::extensions::client::ClientError;
use crate::extensions::client::http::RoundRobin;

verus! {

/// How a call to the upstream endpoint failed.
#[derive(Debug, Clone, Copy, PartialEq, Eq, Structural)]
pub enum UpstreamErrorKind {
    /// No answer in time.
    RequestTimeout,
    /// The transport failed.
    Transport,
    /// The connection must be restarted.
    RestartNeeded,
    /// Too many calls are pending.
    MaxSlotsExceeded,
    /// Any other error, such as an error answer from the endpoint.
    Other,
}

/// What the client does about a failed call.
#[derive(Debug, Clone, Copy, PartialEq, Eq, Structural)]
pub enum Recovery {
    /// Move to the next endpoint, then send the call again.
    RotateAndRetry,
    /// Wait this many milliseconds, then send the call again on the same endpoint.
    RetryAfter { millis: u64 },
    /// Hand the error to the caller.
    GiveUp,
}

/// How long the client waits before sending a call again after a transport failure.
pub const RETRY_DELAY_MS: u64 = 200;

/// How long the client waits before trying the next endpoint after a failed connect.
pub const RECONNECT_DELAY_MS: u64 = 100;

/// What the client does about a call that failed with `kind`: a timeout moves to the
/// next endpoint, a failure of the transport is retried after a pause, anything else
/// goes back to the caller.
pub open spec fn recovery_of(kind: UpstreamErrorKind) -> Recovery {
    match kind {
        UpstreamErrorKind::RequestTimeout => Recovery::RotateAndRetry,
        UpstreamErrorKind::Transport | UpstreamErrorKind::RestartNeeded | UpstreamErrorKind::MaxSlotsExceeded => {
            Recovery::RetryAfter { millis: RETRY_DELAY_MS }
        },
        UpstreamErrorKind::Other => Recovery::GiveUp,
    }
}

/// What to do about a call that failed with `kind` (see `recovery_of`).
pub fn recovery_for(kind: UpstreamErrorKind) -> (r: Recovery)
    ensures
        r == recovery_of(kind),
        kind == UpstreamErrorKind::RequestTimeout ==> r == Recovery::RotateAndRetry,
        (kind == UpstreamErrorKind::Transport || kind == UpstreamErrorKind::RestartNeeded
            || kind == UpstreamErrorKind::MaxSlotsExceeded) ==> r == (Recovery::RetryAfter { millis: RETRY_DELAY_MS }),
        kind == UpstreamErrorKind::Other ==> r == Recovery::GiveUp,
{
    match kind {
        UpstreamErrorKind::RequestTimeout => Recovery::RotateAndRetry,
        UpstreamErrorKind::Transport | UpstreamErrorKind::RestartNeeded | UpstreamErrorKind::MaxSlotsExceeded => {
            Recovery::RetryAfter { millis: RETRY_DELAY_MS }
        },
        UpstreamErrorKind::Other => Recovery::GiveUp,
    }
}

/// What to do about the `attempts`-th failure of a call (counting from 1) that may be
/// retried `retries` times: once the retries are spent the error goes back to the
/// caller, before that the failure is handled as `recovery_of` says.
pub fn retry_step(attempts: u32, retries: u32, kind: UpstreamErrorKind) -> (r: Recovery)
    ensures
        r == if attempts > retries { Recovery::GiveUp } else { recovery_of(kind) },
{
    if attempts > retries {
        Recovery::GiveUp
    } else {
        recovery_for(kind)
    }
}

/// The endpoints a client connects to, one after the other.
#[derive(Debug)]
pub struct EndpointRotation {
    endpoints: Vec<String>,
    robin: RoundRobin,
}

impl EndpointRotation {
    #[verifier::type_invariant]
    closed spec fn inv(self) -> bool {
        self.endpoints.len() > 0
    }

    pub closed spec fn endpoints_view(&self) -> Seq<String> {
        self.endpoints@
    }

    /// How many connections have been started.
    pub closed spec fn count(&self) -> usize {
        self.robin.count()
    }

    /// A rotation over `endpoints`, starting with the first; there must be one.
    pub fn new(endpoints: Vec<String>) -> (r: Result<Self, ClientError>)
        ensures
            endpoints@.len() == 0 ==> r == Err::<Self, ClientError>(ClientError::NoEndpoints),
            endpoints@.len() > 0 ==> (r matches Ok(rot) && rot.endpoints_view() == endpoints@ && rot.count() == 0),
    {
        if endpoints.len() == 0 {
            return Err(ClientError::NoEndpoints);
        }
        Ok(EndpointRotation { endpoints, robin: RoundRobin::new() })
    }

    /// The position in the list of the endpoint to connect to next: the one after the
    /// endpoint connected to last, round the list.
    pub fn next_position(&mut self) -> (i: usize)
        ensures
            rotation_step(*old(self), *final(self), i as int),
    {
        proof {
            use_type_invariant(&*self);
        }
        self.robin.pick(self.endpoints.len())
    }

    /// The endpoint to connect to next (see `next_position`).
    pub fn next_endpoint(&mut self) -> (url: &String)
        ensures
            rotation_step(*old(self), *final(self), old(self).count() as int % old(self).endpoints_view().len() as int),
            *url == old(self).endpoints_view()[(old(self).count() as int) % (old(self).endpoints_view().len() as int)],
    {
        let i = self.next_position();
        proof {
            use_type_invariant(&*self);
        }
        &self.endpoints[i]
    }
}

/// One connection attempt of a rotation: it goes to the endpoint at the position that
/// the count of attempts so far gives, round the list, and counts one attempt more
/// (the count wraps at `usize::MAX`).
pub open spec fn rotation_step(before: EndpointRotation, after: EndpointRotation, position: int) -> bool {
    &&& before.endpoints_view().len() > 0
    &&& after.endpoints_view() == before.endpoints_view()
    &&& position == before.count() as int % before.endpoints_view().len() as int
    &&& after.count() == before.count().wrapping_add(1)
}

/// Successive connection attempts go round the endpoint list: in a run of attempts
/// from a fresh rotation, attempt `k` goes to endpoint `k % n` of the `n` endpoints
/// (for runs shorter than `usize::MAX`, where the count does not wrap).
pub proof fn lemma_attempts_go_round(states: Seq<EndpointRotation>, positions: Seq<int>)
    requires
        states.len() == positions.len() + 1,
        positions.len() < usize::MAX,
        states[0].count() == 0,
        forall|k: int| 0 <= k < positions.len() ==> rotation_step(#[trigger] states[k], states[k + 1], positions[k]),
    ensures
        forall|k: int| 0 <= k < positions.len() ==> #[trigger] positions[k] == k % (states[0].endpoints_view().len() as int)
            && states[k].endpoints_view() == states[0].endpoints_view(),
{
    assert forall|k: int| 0 <= k < positions.len() implies #[trigger] positions[k] == k % (states[0].endpoints_view().len() as int)
        && states[k].endpoints_view() == states[0].endpoints_view() by {
        lemma_count_after(states, positions, k);
        assert(rotation_step(states[k], states[k + 1], positions[k]));
    }
}

/// After `k` attempts of a run from a fresh rotation, the count is `k`.
proof fn lemma_count_after(states: Seq<EndpointRotation>, positions: Seq<int>, k: int)
    requires
        states.len() == positions.len() + 1,
        positions.len() < usize::MAX,
        0 <= k < states.len(),
        states[0].count() == 0,
        forall|j: int| 0 <= j < positions.len() ==> rotation_step(#[trigger] states[j], states[j + 1], positions[j]),
    ensures
        states[k].count() == k,
        states[k].endpoints_view() == states[0].endpoints_view(),
    decreases k,
{
    if k > 0 {
        lemma_count_after(states, positions, k - 1);
        assert(rotation_step(states[k - 1], states[k], positions[k - 1]));
    }
}

} // verus!
