use vstd::prelude::*;

verus! {

/// The best score an endpoint can have.
pub const MAX_SCORE: u32 = 100;

/// Below this score an endpoint is unhealthy.
pub const THRESHOLD: u32 = MAX_SCORE / 2;

/// Something that happened on the connection to an endpoint.
#[derive(Debug, Clone, Copy, PartialEq, Eq, Structural)]
pub enum Event {
    ResponseOk,
    ConnectionSuccessful,
    SlowResponse,
    RequestTimeout,
    ServerError,
    Unhealthy,
    ConnectionClosed,
}

/// The score an endpoint has after `event`, when it had `current` before.
pub open spec fn score_after(event: Event, current: u32) -> u32 {
    let raw: int = match event {
        Event::ResponseOk => if current + 2 > u32::MAX { u32::MAX as int } else { current + 2 },
        Event::SlowResponse => if current < 5 { 0 } else { current - 5 },
        Event::RequestTimeout | Event::ServerError | Event::Unhealthy | Event::ConnectionClosed => 0,
        Event::ConnectionSuccessful => MAX_SCORE / 5 * 4,
    };
    if raw < MAX_SCORE { raw as u32 } else { MAX_SCORE }
}

impl Event {
    /// The new score of an endpoint whose score was `current`.
    pub fn update_score(&self, current: u32) -> (r: u32)
        ensures
            r == score_after(*self, current),
    {
        let raw = match self {
            Event::ResponseOk => current.saturating_add(2),
            Event::SlowResponse => current.saturating_sub(5),
            Event::RequestTimeout | Event::ServerError | Event::Unhealthy | Event::ConnectionClosed => 0,
            Event::ConnectionSuccessful => MAX_SCORE / 5 * 4,
        };
        if raw < MAX_SCORE {
            raw
        } else {
            MAX_SCORE
        }
    }
}


/// What a failed call on an endpoint tells about the endpoint.
#[derive(Debug, Clone, Copy, PartialEq, Eq, Structural)]
pub enum RpcErrorKind {
    /// The endpoint answered with a JSON-RPC error: it is working.
    Call,
    /// The endpoint did not answer in time.
    RequestTimeout,
    /// Any other failure of the transport or of the endpoint.
    Other,
}

/// The event that a failed call of the given kind counts as, if any.
pub open spec fn error_event(kind: RpcErrorKind) -> Option<Event> {
    match kind {
        RpcErrorKind::Call => None,
        RpcErrorKind::RequestTimeout => Some(Event::RequestTimeout),
        RpcErrorKind::Other => Some(Event::ServerError),
    }
}

/// Whether a change of score from `before` to `after` makes the endpoint unhealthy.
pub open spec fn crosses_threshold(before: u32, after: u32) -> bool {
    before >= THRESHOLD && after < THRESHOLD
}

/// The health of one endpoint: a score between 0 and `MAX_SCORE`.
#[derive(Debug)]
pub struct Health {
    url: String,
    score: u32,
}

impl Health {
    #[verifier::type_invariant]
    closed spec fn inv(self) -> bool {
        self.score <= MAX_SCORE
    }

    /// The current score.
    pub closed spec fn score_view(&self) -> u32 {
        self.score
    }

    /// The endpoint's url.
    pub closed spec fn url_view(&self) -> Seq<char> {
        self.url@
    }

    /// A fresh endpoint starts with score 0.
    pub fn new(url: String) -> (h: Self)
        ensures
            h.score_view() == 0,
            h.url_view() == url@,
    {
        Health { url, score: 0 }
    }

    pub fn score(&self) -> (s: u32)
        ensures
            s == self.score_view(),
            s <= MAX_SCORE,
    {
        proof {
            use_type_invariant(self);
        }
        self.score
    }

    pub fn url(&self) -> (u: &str)
        ensures
            u@ == self.url_view(),
    {
        self.url.as_str()
    }

    /// Applies `event` to the score. Returns whether the endpoint became unhealthy by
    /// it, that is whether waiters for that must be woken.
    pub fn update(&mut self, event: Event) -> (became_unhealthy: bool)
        ensures
            final(self).score_view() == score_after(event, old(self).score_view()),
            final(self).url_view() == old(self).url_view(),
            became_unhealthy == crosses_threshold(old(self).score_view(), final(self).score_view()),
    {
        let current_score = self.score;
        let new_score = event.update_score(current_score);
        if new_score == current_score {
            return false;
        }
        self.score = new_score;
        current_score >= THRESHOLD && new_score < THRESHOLD
    }

    /// Counts a failed call: a JSON-RPC error leaves the score as it is, a timeout
    /// counts as `RequestTimeout`, any other failure as `ServerError`.
    pub fn on_error(&mut self, kind: RpcErrorKind) -> (became_unhealthy: bool)
        ensures
            final(self).url_view() == old(self).url_view(),
            match error_event(kind) {
                None => final(self).score_view() == old(self).score_view() && !became_unhealthy,
                Some(e) => final(self).score_view() == score_after(e, old(self).score_view())
                    && became_unhealthy == crosses_threshold(old(self).score_view(), final(self).score_view()),
            },
    {
        match kind {
            RpcErrorKind::Call => false,
            RpcErrorKind::RequestTimeout => self.update(Event::RequestTimeout),
            RpcErrorKind::Other => self.update(Event::ServerError),
        }
    }
}

/// The score never leaves `0..=MAX_SCORE`, whatever happens.
pub proof fn lemma_score_within_bounds(event: Event, current: u32)
    ensures
        score_after(event, current) <= MAX_SCORE,
{
}

/// A timeout, a server error, a failed health check or a closed connection takes
/// the score to 0.
pub proof fn lemma_failure_resets(event: Event, current: u32)
    requires
        event == Event::RequestTimeout || event == Event::ServerError
            || event == Event::Unhealthy || event == Event::ConnectionClosed,
    ensures
        score_after(event, current) == 0,
{
}

/// A successful connection sets the score to 80% of the best score, a healthy
/// endpoint.
pub proof fn lemma_connection_makes_healthy(current: u32)
    ensures
        score_after(Event::ConnectionSuccessful, current) == MAX_SCORE / 5 * 4,
        score_after(Event::ConnectionSuccessful, current) >= THRESHOLD,
{
}

/// A good response raises the score by 2 up to the best score; a slow one lowers it
/// by 5 down to 0.
pub proof fn lemma_response_steps(current: u32)
    requires
        current <= MAX_SCORE,
    ensures
        score_after(Event::ResponseOk, current) == if current + 2 <= MAX_SCORE { current + 2 } else { MAX_SCORE as int },
        score_after(Event::SlowResponse, current) == if current >= 5 { current - 5 } else { 0 },
        score_after(Event::ResponseOk, current) >= current,
        score_after(Event::SlowResponse, current) <= current,
{
}

/// Waiters are woken at most once per fall: once an endpoint is unhealthy, a further
/// event that keeps it unhealthy does not wake them again.
pub proof fn lemma_no_repeated_wakeup(event: Event, current: u32)
    requires
        current < THRESHOLD,
    ensures
        !crosses_threshold(current, score_after(event, current)),
{
}

} // verus!
