//! The life of the connection to one endpoint, as a state machine. The caller does
//! the outside work that the machine asks for (receive a message, wait, connect,
//! send a request) and hands back what came of it; the machine decides what comes
//! next and keeps the endpoint's health.
use vstd::prelude::*;
use crate::extensions::client::health::{Event, Health, RpcErrorKind, score_after, crosses_threshold, error_event, THRESHOLD};

verus! {

/// A message to the endpoint: a request, a subscription (their payloads are the
/// caller's), or an order to reconnect.
pub enum Message<R, S> {
    Request(R),
    Subscribe(S),
    Reconnect,
}

/// Where the connection stands.
pub enum State<R, S> {
    /// Not connected: waiting for a message before connecting.
    Initial,
    /// The connection failed with this event; waiting before starting over.
    OnError(Event),
    /// Connecting, with the message that is to be handled once connected, if any.
    Connect(Option<Message<R, S>>),
    /// Connected, with a message to handle.
    HandleMessage(Message<R, S>),
    /// Connected, waiting for a message or for the connection to drop.
    WaitForMessage,
    /// The message channel is closed: the endpoint is done.
    Closed,
}

/// The outside work that the current state asks for.
#[derive(Debug, Clone, Copy, PartialEq, Eq, Structural)]
pub enum Work {
    /// Wait for the next message.
    Receive,
    /// Wait before reconnecting; `attempt` counts the waits since the last
    /// successful connection. Wake those waiting for the endpoint to become unhealthy
    /// first if `wake` is set.
    Backoff { attempt: u32, wake: bool },
    /// Open a connection.
    Connect,
    /// Hand the message to the connection (nothing to wait for).
    Handle,
    /// Wait for the next message or for the connection to drop, whichever is first.
    ReceiveOrDisconnect,
    /// Stop.
    Stop,
}

/// What came of the outside work.
pub enum Input<R, S> {
    /// A message arrived, or the channel closed (`None`).
    Received(Option<Message<R, S>>),
    /// The wait after a failure is over.
    BackedOff,
    /// A connection was opened.
    Connected,
    /// Opening a connection failed.
    ConnectFailed,
    /// The message was handed over.
    Handled,
    /// The connection dropped.
    Disconnected,
}

/// What the caller sends over the connection after a step.
pub enum Dispatch<R, S> {
    Nothing,
    Request(R),
    Subscribe(S),
}

/// The state that follows `state` on `input`; an input that does not fit the state
/// leaves it as it is.
pub open spec fn next_state<R, S>(state: State<R, S>, input: Input<R, S>) -> State<R, S> {
    match (state, input) {
        (State::Initial, Input::Received(Some(Message::Reconnect))) => State::Connect(None),
        (State::Initial, Input::Received(Some(m))) => State::Connect(Some(m)),
        (State::Initial, Input::Received(None)) => State::Closed,
        (State::OnError(_), Input::BackedOff) => State::Initial,
        (State::Connect(Some(m)), Input::Connected) => State::HandleMessage(m),
        (State::Connect(None), Input::Connected) => State::WaitForMessage,
        (State::Connect(_), Input::ConnectFailed) => State::OnError(Event::ConnectionClosed),
        (State::HandleMessage(Message::Reconnect), Input::Handled) => State::Initial,
        (State::HandleMessage(_), Input::Handled) => State::WaitForMessage,
        (State::WaitForMessage, Input::Received(Some(m))) => State::HandleMessage(m),
        (State::WaitForMessage, Input::Received(None)) => State::Closed,
        (State::WaitForMessage, Input::Disconnected) => State::OnError(Event::ConnectionClosed),
        (s, _) => s,
    }
}

/// Whether `input` fits `state`, that is whether it moves the machine.
pub open spec fn fits<R, S>(state: State<R, S>, input: Input<R, S>) -> bool {
    match (state, input) {
        (State::Initial, Input::Received(_)) => true,
        (State::OnError(_), Input::BackedOff) => true,
        (State::Connect(_), Input::Connected) => true,
        (State::Connect(_), Input::ConnectFailed) => true,
        (State::HandleMessage(_), Input::Handled) => true,
        (State::WaitForMessage, Input::Received(_)) => true,
        (State::WaitForMessage, Input::Disconnected) => true,
        _ => false,
    }
}

/// How an endpoint is checked: every `interval_sec` seconds `health_method` is called;
/// an answer within `healthy_response_time_ms` milliseconds is healthy.
#[derive(Debug, Clone)]
pub struct HealthCheckConfig {
    pub interval_sec: u64,
    pub healthy_response_time_ms: u64,
    pub health_method: String,
}

/// How long a health check may wait for its answer: twice the healthy response time.
pub fn check_timeout_ms(config: &HealthCheckConfig) -> (ms: u64)
    requires
        config.healthy_response_time_ms <= u64::MAX / 2,
    ensures
        ms == config.healthy_response_time_ms * 2,
{
    config.healthy_response_time_ms * 2
}

/// What came of one health check.
#[derive(Debug, Clone, Copy, PartialEq, Eq, Structural)]
pub enum CheckOutcome {
    /// An answer came after `elapsed_ms` milliseconds; `valid` tells whether it is the
    /// expected one (always, when no answer is expected).
    Answered { valid: bool, elapsed_ms: u64 },
    /// The call failed.
    Failed(RpcErrorKind),
}

/// The event that a health check counts as: a wrong answer makes the endpoint
/// unhealthy, a slow one counts as slow, any other answer as good; a failed call
/// counts as its error does (see `error_event`).
pub open spec fn check_event(outcome: CheckOutcome, healthy_response_time_ms: u64) -> Option<Event> {
    match outcome {
        CheckOutcome::Answered { valid, elapsed_ms } => if !valid {
            Some(Event::Unhealthy)
        } else if elapsed_ms > healthy_response_time_ms {
            Some(Event::SlowResponse)
        } else {
            Some(Event::ResponseOk)
        },
        CheckOutcome::Failed(kind) => error_event(kind),
    }
}

/// Applies the outcome of a health check to `health` (see `check_event`); returns
/// whether the endpoint became unhealthy by it.
pub fn record_check(health: &mut Health, outcome: CheckOutcome, healthy_response_time_ms: u64) -> (became_unhealthy: bool)
    ensures
        final(health).url_view() == old(health).url_view(),
        match check_event(outcome, healthy_response_time_ms) {
            Some(e) => final(health).score_view() == score_after(e, old(health).score_view())
                && became_unhealthy == crosses_threshold(old(health).score_view(), final(health).score_view()),
            None => final(health).score_view() == old(health).score_view() && !became_unhealthy,
        },
        outcome == CheckOutcome::Failed(RpcErrorKind::RequestTimeout) ==> final(health).score_view() == 0
            && became_unhealthy == (old(health).score_view() >= THRESHOLD),
{
    match outcome {
        CheckOutcome::Answered { valid, elapsed_ms } => {
            if !valid {
                health.update(Event::Unhealthy)
            } else if elapsed_ms > healthy_response_time_ms {
                health.update(Event::SlowResponse)
            } else {
                health.update(Event::ResponseOk)
            }
        },
        CheckOutcome::Failed(kind) => health.on_error(kind),
    }
}

/// A health check whose call failed counts exactly as that failure counts on any call
/// (see `Health::on_error`): for every kind of failure the check's event is the
/// failure's event. So a timed-out check takes the score to 0 and makes a healthy
/// endpoint unhealthy, a failed transport does the same, and only a JSON-RPC error
/// answer (the endpoint is working) leaves the score as it is.
pub proof fn lemma_failed_check_counts_as_error(kind: RpcErrorKind, healthy_response_time_ms: u64, before: u32)
    ensures
        check_event(CheckOutcome::Failed(kind), healthy_response_time_ms) == error_event(kind),
        check_event(CheckOutcome::Failed(RpcErrorKind::RequestTimeout), healthy_response_time_ms)
            == Some(Event::RequestTimeout),
        check_event(CheckOutcome::Failed(RpcErrorKind::Other), healthy_response_time_ms) == Some(Event::ServerError),
        check_event(CheckOutcome::Failed(RpcErrorKind::Call), healthy_response_time_ms) is None,
        score_after(Event::RequestTimeout, before) == 0,
        score_after(Event::ServerError, before) == 0,
        crosses_threshold(before, 0) <==> before >= THRESHOLD,
{
}

/// While connected, every received message, whatever it is, goes straight to being
/// handled on the same connection: no new connection is opened for it. Before a
/// connection, a request or subscription is kept for the connection and handled as
/// soon as it is open.
pub proof fn lemma_connected_messages_handled_directly<R, S>(m: Message<R, S>)
    ensures
        next_state(State::<R, S>::WaitForMessage, Input::Received(Some(m))) == State::<R, S>::HandleMessage(m),
        fits(State::<R, S>::WaitForMessage, Input::Received(Some(m))),
        !(m is Reconnect) ==> next_state(State::<R, S>::Initial, Input::Received(Some(m))) == State::<R, S>::Connect(Some(m)),
        next_state(State::<R, S>::Connect(Some(m)), Input::<R, S>::Connected) == State::<R, S>::HandleMessage(m),
{
}

/// Once the message channel is closed the endpoint stays closed.
pub proof fn lemma_closed_is_final<R, S>(input: Input<R, S>)
    ensures
        next_state(State::<R, S>::Closed, input) is Closed,
        !fits(State::<R, S>::Closed, input),
{
}

/// An order to reconnect drops the connection: handling it goes back to waiting for a
/// message before connecting.
pub proof fn lemma_reconnect_restarts<R, S>()
    ensures
        next_state(State::<R, S>::HandleMessage(Message::Reconnect), Input::Handled) is Initial,
{
}

/// A failed connect and a dropped connection both count as a closed connection, and
/// the only way on from an error is a new start after the wait.
pub proof fn lemma_failures_go_through_backoff<R, S>(m: Option<Message<R, S>>, input: Input<R, S>)
    ensures
        next_state(State::Connect(m), Input::<R, S>::ConnectFailed) == State::<R, S>::OnError(Event::ConnectionClosed),
        next_state(State::<R, S>::WaitForMessage, Input::<R, S>::Disconnected) == State::<R, S>::OnError(Event::ConnectionClosed),
        fits(State::<R, S>::OnError(Event::ConnectionClosed), input) ==> next_state(State::<R, S>::OnError(Event::ConnectionClosed), input) is Initial,
{
}

/// A message received while connected is handled before anything else, and one
/// received while not connected is handled right after connecting.
pub proof fn lemma_messages_are_handled<R, S>(r: R)
    ensures
        next_state(State::<R, S>::WaitForMessage, Input::Received(Some(Message::<R, S>::Request(r))))
            == State::<R, S>::HandleMessage(Message::Request(r)),
        next_state(State::<R, S>::Initial, Input::Received(Some(Message::<R, S>::Request(r))))
            == State::<R, S>::Connect(Some(Message::Request(r))),
        next_state(State::<R, S>::Connect(Some(Message::<R, S>::Request(r))), Input::Connected)
            == State::<R, S>::HandleMessage(Message::Request(r)),
{
}

/// The machine of one endpoint.
pub struct EndpointMachine<R, S> {
    state: State<R, S>,
    health: Health,
    backoff_count: u32,
    connect_count: u32,
    work: Work,
}

impl<R, S> EndpointMachine<R, S> {
    pub closed spec fn state_view(&self) -> State<R, S> {
        self.state
    }

    pub closed spec fn health_view(&self) -> Health {
        self.health
    }

    pub closed spec fn backoff_count_view(&self) -> u32 {
        self.backoff_count
    }

    pub closed spec fn connect_count_view(&self) -> u32 {
        self.connect_count
    }

    pub closed spec fn work_view(&self) -> Work {
        self.work
    }

    /// A machine for the endpoint at `url`, waiting for its first message, with one
    /// connection attempt counted.
    pub fn new(url: String) -> (m: Self)
        ensures
            m.state_view() is Initial,
            m.health_view().score_view() == 0,
            m.health_view().url_view() == url@,
            m.backoff_count_view() == 0,
            m.connect_count_view() == 1,
            m.work_view() == Work::Receive,
    {
        EndpointMachine {
            state: State::Initial,
            health: Health::new(url),
            backoff_count: 0,
            connect_count: 1,
            work: Work::Receive,
        }
    }

    /// The outside work that the current state asks for.
    pub fn work(&self) -> (w: Work)
        ensures
            w == self.work_view(),
    {
        self.work
    }

    /// How many times the machine has started to connect.
    pub fn connect_counter(&self) -> (c: u32)
        ensures
            c == self.connect_count_view(),
    {
        self.connect_count
    }

    /// The endpoint's health.
    pub fn health(&self) -> (h: &Health)
        ensures
            *h == self.health_view(),
    {
        &self.health
    }

    /// Applies the outcome of a health check to the endpoint's health (see
    /// `check_event`), leaving the connection's state as it is.
    pub fn record_check(&mut self, outcome: CheckOutcome, healthy_response_time_ms: u64) -> (became_unhealthy: bool)
        ensures
            final(self).state_view() == old(self).state_view(),
            final(self).backoff_count_view() == old(self).backoff_count_view(),
            final(self).connect_count_view() == old(self).connect_count_view(),
            final(self).work_view() == old(self).work_view(),
            final(self).health_view().url_view() == old(self).health_view().url_view(),
            match check_event(outcome, healthy_response_time_ms) {
                Some(e) => final(self).health_view().score_view() == score_after(e, old(self).health_view().score_view())
                    && became_unhealthy == crosses_threshold(old(self).health_view().score_view(), final(self).health_view().score_view()),
                None => final(self).health_view().score_view() == old(self).health_view().score_view() && !became_unhealthy,
            },
            outcome == CheckOutcome::Failed(RpcErrorKind::RequestTimeout) ==> final(self).health_view().score_view() == 0
                && became_unhealthy == (old(self).health_view().score_view() >= THRESHOLD),
    {
        record_check(&mut self.health, outcome, healthy_response_time_ms)
    }

    /// Applies `event` to the endpoint's health, leaving the connection's state as it
    /// is; returns whether the endpoint became unhealthy by it.
    pub fn record_event(&mut self, event: Event) -> (became_unhealthy: bool)
        ensures
            final(self).state_view() == old(self).state_view(),
            final(self).backoff_count_view() == old(self).backoff_count_view(),
            final(self).connect_count_view() == old(self).connect_count_view(),
            final(self).work_view() == old(self).work_view(),
            final(self).health_view().url_view() == old(self).health_view().url_view(),
            final(self).health_view().score_view() == score_after(event, old(self).health_view().score_view()),
            became_unhealthy == crosses_threshold(old(self).health_view().score_view(), final(self).health_view().score_view()),
    {
        self.health.update(event)
    }

    /// Counts a failed call on the endpoint's health (see `Health::on_error`), leaving
    /// the connection's state as it is.
    pub fn record_error(&mut self, kind: RpcErrorKind) -> (became_unhealthy: bool)
        ensures
            final(self).state_view() == old(self).state_view(),
            final(self).backoff_count_view() == old(self).backoff_count_view(),
            final(self).connect_count_view() == old(self).connect_count_view(),
            final(self).work_view() == old(self).work_view(),
            final(self).health_view().url_view() == old(self).health_view().url_view(),
            match error_event(kind) {
                None => final(self).health_view().score_view() == old(self).health_view().score_view() && !became_unhealthy,
                Some(e) => final(self).health_view().score_view() == score_after(e, old(self).health_view().score_view())
                    && became_unhealthy == crosses_threshold(old(self).health_view().score_view(), final(self).health_view().score_view()),
            },
    {
        self.health.on_error(kind)
    }

    /// Takes the machine one step on `input` (see `next_state`). Entering `Initial`
    /// counts a connection attempt; entering `OnError` applies its event to the health
    /// and counts a wait; a successful connection counts as `ConnectionSuccessful`
    /// and resets the wait count. The message being handled, if a request or a
    /// subscription, is returned to be sent.
    pub fn step(&mut self, input: Input<R, S>) -> (d: Dispatch<R, S>)
        ensures
            final(self).state_view() == next_state(old(self).state_view(), input),
            !fits(old(self).state_view(), input) ==> {
                &&& final(self).health_view() == old(self).health_view()
                &&& final(self).backoff_count_view() == old(self).backoff_count_view()
                &&& final(self).connect_count_view() == old(self).connect_count_view()
                &&& final(self).work_view() == old(self).work_view()
                &&& d is Nothing
            },
            fits(old(self).state_view(), input) ==> final(self).work_view() == match final(self).state_view() {
                State::Initial => Work::Receive,
                State::OnError(_) => Work::Backoff {
                    attempt: old(self).backoff_count_view(),
                    wake: crosses_threshold(old(self).health_view().score_view(), final(self).health_view().score_view()),
                },
                State::Connect(_) => Work::Connect,
                State::HandleMessage(_) => Work::Handle,
                State::WaitForMessage => Work::ReceiveOrDisconnect,
                State::Closed => Work::Stop,
            },
            fits(old(self).state_view(), input) ==> final(self).connect_count_view() == if final(self).state_view() is Initial {
                old(self).connect_count_view().wrapping_add(1)
            } else {
                old(self).connect_count_view()
            },
            fits(old(self).state_view(), input) ==> final(self).health_view().url_view() == old(self).health_view().url_view(),
            fits(old(self).state_view(), input) ==> final(self).health_view().score_view() == match (old(self).state_view(), input) {
                (State::Connect(_), Input::Connected) => score_after(Event::ConnectionSuccessful, old(self).health_view().score_view()),
                _ => match final(self).state_view() {
                    State::OnError(e) => score_after(e, old(self).health_view().score_view()),
                    _ => old(self).health_view().score_view(),
                },
            },
            fits(old(self).state_view(), input) ==> final(self).backoff_count_view() == match (old(self).state_view(), input) {
                (State::Connect(_), Input::Connected) => 0,
                _ => match final(self).state_view() {
                    State::OnError(_) => old(self).backoff_count_view().wrapping_add(1),
                    _ => old(self).backoff_count_view(),
                },
            },
            match (old(self).state_view(), input) {
                (State::WaitForMessage, Input::Received(Some(m))) => {
                    &&& final(self).state_view() == State::<R, S>::HandleMessage(m)
                    &&& final(self).work_view() == Work::Handle
                    &&& final(self).connect_count_view() == old(self).connect_count_view()
                    &&& final(self).health_view() == old(self).health_view()
                },
                _ => true,
            },
            match (old(self).state_view(), input) {
                (State::HandleMessage(Message::Request(r)), Input::Handled) => d == Dispatch::<R, S>::Request(r),
                (State::HandleMessage(Message::Subscribe(s)), Input::Handled) => d == Dispatch::<R, S>::Subscribe(s),
                _ => d is Nothing,
            },
    {
        let mut state = State::Closed;
        std::mem::swap(&mut state, &mut self.state);
        let mut dispatch = Dispatch::Nothing;
        let mut moved = true;
        let next = match (state, input) {
            (State::Initial, Input::Received(Some(Message::Reconnect))) => State::Connect(None),
            (State::Initial, Input::Received(Some(m))) => State::Connect(Some(m)),
            (State::Initial, Input::Received(None)) => State::Closed,
            (State::OnError(_), Input::BackedOff) => State::Initial,
            (State::Connect(m), Input::Connected) => {
                self.backoff_count = 0;
                self.health.update(Event::ConnectionSuccessful);
                match m {
                    Some(m) => State::HandleMessage(m),
                    None => State::WaitForMessage,
                }
            },
            (State::Connect(_), Input::ConnectFailed) => State::OnError(Event::ConnectionClosed),
            (State::HandleMessage(m), Input::Handled) => match m {
                Message::Request(r) => {
                    dispatch = Dispatch::Request(r);
                    State::WaitForMessage
                },
                Message::Subscribe(s) => {
                    dispatch = Dispatch::Subscribe(s);
                    State::WaitForMessage
                },
                Message::Reconnect => State::Initial,
            },
            (State::WaitForMessage, Input::Received(Some(m))) => State::HandleMessage(m),
            (State::WaitForMessage, Input::Received(None)) => State::Closed,
            (State::WaitForMessage, Input::Disconnected) => State::OnError(Event::ConnectionClosed),
            (s, _) => {
                moved = false;
                s
            },
        };
        if moved {
            self.work = match &next {
                State::Initial => {
                    self.connect_count = self.connect_count.wrapping_add(1);
                    Work::Receive
                },
                State::OnError(e) => {
                    let attempt = self.backoff_count;
                    self.backoff_count = self.backoff_count.wrapping_add(1);
                    let wake = self.health.update(*e);
                    Work::Backoff { attempt, wake }
                },
                State::Connect(_) => Work::Connect,
                State::HandleMessage(_) => Work::Handle,
                State::WaitForMessage => Work::ReceiveOrDisconnect,
                State::Closed => Work::Stop,
            };
        }
        self.state = next;
        dispatch
    }
}

} // verus!
