use subway::client::{recovery_for, retry_step, EndpointRotation, Recovery, UpstreamErrorKind, RETRY_DELAY_MS};
use subway::extensions::client::endpoint::{
    check_timeout_ms, CheckOutcome, Dispatch, EndpointMachine, HealthCheckConfig, Input, Message, State, Work,
};
use subway::extensions::client::health::{Event, Health, RpcErrorKind, MAX_SCORE, THRESHOLD};
use subway::extensions::client::http::{split_http_endpoints, RoundRobin};
use subway::extensions::client::{client_endpoints, get_urls, starts_with, validate_endpoint, ClientError};

fn strings(v: &[&str]) -> Vec<String> {
    v.iter().map(|s| s.to_string()).collect()
}

#[test]
fn update_score_values() {
    assert_eq!(Event::ResponseOk.update_score(50), 52);
    assert_eq!(Event::ResponseOk.update_score(99), 100);
    assert_eq!(Event::ResponseOk.update_score(u32::MAX), MAX_SCORE);
    assert_eq!(Event::SlowResponse.update_score(50), 45);
    assert_eq!(Event::SlowResponse.update_score(3), 0);
    assert_eq!(Event::ConnectionSuccessful.update_score(0), 80);
    assert_eq!(Event::RequestTimeout.update_score(100), 0);
    assert_eq!(Event::ServerError.update_score(100), 0);
    assert_eq!(Event::Unhealthy.update_score(70), 0);
    assert_eq!(Event::ConnectionClosed.update_score(70), 0);
    assert_eq!(THRESHOLD, 50);
}

#[test]
fn health_wakes_once_when_falling_below_threshold() {
    let mut h = Health::new("ws://a".to_string());
    assert_eq!(h.score(), 0);
    assert_eq!(h.url(), "ws://a");
    assert!(!h.update(Event::ConnectionSuccessful));
    assert_eq!(h.score(), 80);
    assert!(h.update(Event::RequestTimeout));
    assert_eq!(h.score(), 0);
    assert!(!h.update(Event::ServerError));
    assert!(!h.update(Event::ConnectionSuccessful));
    for _ in 0..20 {
        h.update(Event::ResponseOk);
    }
    assert_eq!(h.score(), 100);
    for _ in 0..9 {
        assert!(!h.update(Event::SlowResponse));
    }
    assert_eq!(h.score(), 55);
    assert!(!h.update(Event::SlowResponse));
    assert_eq!(h.score(), 50);
    assert!(h.update(Event::SlowResponse));
    assert_eq!(h.score(), 45);
}

#[test]
fn health_on_error() {
    let mut h = Health::new("u".to_string());
    h.update(Event::ConnectionSuccessful);
    assert!(!h.on_error(RpcErrorKind::Call));
    assert_eq!(h.score(), 80);
    assert!(h.on_error(RpcErrorKind::Other));
    assert_eq!(h.score(), 0);
    h.update(Event::ConnectionSuccessful);
    assert!(h.on_error(RpcErrorKind::RequestTimeout));
    assert_eq!(h.score(), 0);
}

#[test]
fn get_urls_splits_by_scheme() {
    let eps = strings(&["ws://a", "http://b", "wss://c", "https://d", "ftp://e", "WS://f"]);
    let (ws, http) = get_urls(&eps);
    assert_eq!(ws, strings(&["ws://a", "wss://c"]));
    assert_eq!(http, strings(&["http://b", "https://d"]));
}

#[test]
fn client_endpoints_needs_one() {
    assert_eq!(client_endpoints(&strings(&["ftp://x"])).unwrap_err(), ClientError::NoEndpoints);
    assert_eq!(ClientError::NoEndpoints.message(), "No endpoints provided");
    let (ws, http) = client_endpoints(&strings(&["ws://x"])).unwrap();
    assert_eq!(ws, strings(&["ws://x"]));
    assert!(http.is_empty());
}

#[test]
fn starts_with_prefixes() {
    assert!(starts_with("wss://x", "wss://"));
    assert!(!starts_with("ws", "ws://"));
    assert!(starts_with("anything", ""));
    assert!(!starts_with("éa", "ea"));
}

#[test]
fn validate_endpoint_message() {
    assert!(validate_endpoint("ws://localhost:9944").is_ok());
    assert_eq!(validate_endpoint("bad uri").unwrap_err(), "Invalid endpoint format: bad uri");
}

#[test]
fn http_endpoints_ignore_case() {
    let (http, others) = split_http_endpoints(strings(&["HTTP://A", "ws://b", "https://c", "Http:/x"]));
    assert_eq!(http, strings(&["HTTP://A", "https://c"]));
    assert_eq!(others, strings(&["ws://b", "Http:/x"]));
}

#[test]
fn round_robin_cycles() {
    let mut r = RoundRobin::new();
    let picks: Vec<usize> = (0..7).map(|_| r.pick(3)).collect();
    assert_eq!(picks, vec![0, 1, 2, 0, 1, 2, 0]);
}

#[test]
fn endpoint_rotation_goes_round() {
    assert_eq!(EndpointRotation::new(vec![]).unwrap_err(), ClientError::NoEndpoints);
    let mut rot = EndpointRotation::new(strings(&["a", "b"])).unwrap();
    assert_eq!(rot.next_endpoint(), "a");
    assert_eq!(rot.next_endpoint(), "b");
    assert_eq!(rot.next_endpoint(), "a");
}

#[test]
fn recovery_of_each_error() {
    assert_eq!(recovery_for(UpstreamErrorKind::RequestTimeout), Recovery::RotateAndRetry);
    assert_eq!(recovery_for(UpstreamErrorKind::Transport), Recovery::RetryAfter { millis: RETRY_DELAY_MS });
    assert_eq!(recovery_for(UpstreamErrorKind::RestartNeeded), Recovery::RetryAfter { millis: 200 });
    assert_eq!(recovery_for(UpstreamErrorKind::MaxSlotsExceeded), Recovery::RetryAfter { millis: 200 });
    assert_eq!(recovery_for(UpstreamErrorKind::Other), Recovery::GiveUp);
}

#[test]
fn endpoint_machine_life() {
    let mut m: EndpointMachine<u32, u32> = EndpointMachine::new("ws://a".to_string());
    assert_eq!(m.work(), Work::Receive);
    assert_eq!(m.connect_counter(), 1);

    assert!(matches!(m.step(Input::Received(Some(Message::Request(7)))), Dispatch::Nothing));
    assert_eq!(m.work(), Work::Connect);

    // a failed connect waits, then starts over
    assert!(matches!(m.step(Input::ConnectFailed), Dispatch::Nothing));
    assert_eq!(m.work(), Work::Backoff { attempt: 0, wake: false });
    assert!(matches!(m.step(Input::BackedOff), Dispatch::Nothing));
    assert_eq!(m.work(), Work::Receive);
    assert_eq!(m.connect_counter(), 2);

    m.step(Input::Received(Some(Message::Subscribe(9))));
    m.step(Input::Connected);
    assert_eq!(m.health().score(), 80);
    assert_eq!(m.work(), Work::Handle);
    assert!(matches!(m.step(Input::Handled), Dispatch::Subscribe(9)));
    assert_eq!(m.work(), Work::ReceiveOrDisconnect);

    // an input that does not fit changes nothing
    assert!(matches!(m.step(Input::BackedOff), Dispatch::Nothing));
    assert_eq!(m.work(), Work::ReceiveOrDisconnect);

    m.step(Input::Received(Some(Message::Request(1))));
    assert!(matches!(m.step(Input::Handled), Dispatch::Request(1)));

    // dropping the connection takes the endpoint below the threshold
    m.step(Input::Disconnected);
    assert_eq!(m.work(), Work::Backoff { attempt: 0, wake: true });
    assert_eq!(m.health().score(), 0);

    m.step(Input::BackedOff);
    m.step(Input::Received(Some(Message::Reconnect)));
    m.step(Input::Connected);
    assert_eq!(m.work(), Work::ReceiveOrDisconnect);
    m.step(Input::Received(Some(Message::Reconnect)));
    m.step(Input::Handled);
    assert_eq!(m.work(), Work::Receive);
    m.step(Input::Received(None));
    assert_eq!(m.work(), Work::Stop);
}

#[test]
fn backoff_counts_until_connected() {
    let mut m: EndpointMachine<(), ()> = EndpointMachine::new("u".to_string());
    m.step(Input::Received(Some(Message::Reconnect)));
    m.step(Input::ConnectFailed);
    assert_eq!(m.work(), Work::Backoff { attempt: 0, wake: false });
    m.step(Input::BackedOff);
    m.step(Input::Received(Some(Message::Reconnect)));
    m.step(Input::ConnectFailed);
    assert_eq!(m.work(), Work::Backoff { attempt: 1, wake: false });
    m.step(Input::BackedOff);
    m.step(Input::Received(Some(Message::Reconnect)));
    m.step(Input::Connected);
    m.step(Input::Disconnected);
    assert_eq!(m.work(), Work::Backoff { attempt: 0, wake: true });
}

#[test]
fn health_checks_count() {
    let cfg = HealthCheckConfig {
        interval_sec: 10,
        healthy_response_time_ms: 500,
        health_method: "system_health".to_string(),
    };
    assert_eq!(check_timeout_ms(&cfg), 1000);
    let mut m: EndpointMachine<(), ()> = EndpointMachine::new("u".to_string());
    m.record_check(CheckOutcome::Answered { valid: true, elapsed_ms: 100 }, 500);
    assert_eq!(m.health().score(), 2);
    m.record_check(CheckOutcome::Answered { valid: true, elapsed_ms: 600 }, 500);
    assert_eq!(m.health().score(), 0);
    m.step(Input::Received(Some(Message::Reconnect)));
    m.step(Input::Connected);
    assert!(m.record_check(CheckOutcome::Answered { valid: false, elapsed_ms: 1 }, 500));
    assert_eq!(m.health().score(), 0);
    assert!(!m.record_check(CheckOutcome::Failed(RpcErrorKind::Call), 500));
    assert!(matches!(m.work(), Work::ReceiveOrDisconnect));
    let _ = State::<(), ()>::Initial;
}

#[test]
fn connection_attempts_go_round() {
    let mut rot = EndpointRotation::new(strings(&["e0", "e1", "e2"])).unwrap();
    let positions: Vec<usize> = (0..7).map(|_| rot.next_position()).collect();
    assert_eq!(positions, vec![0, 1, 2, 0, 1, 2, 0]);
    assert_eq!(rot.next_endpoint(), "e1");
}

#[test]
fn retries_are_budgeted() {
    assert_eq!(retry_step(1, 3, UpstreamErrorKind::RequestTimeout), Recovery::RotateAndRetry);
    assert_eq!(retry_step(3, 3, UpstreamErrorKind::Transport), Recovery::RetryAfter { millis: 200 });
    assert_eq!(retry_step(4, 3, UpstreamErrorKind::RequestTimeout), Recovery::GiveUp);
    assert_eq!(retry_step(1, 0, UpstreamErrorKind::Transport), Recovery::GiveUp);
    assert_eq!(retry_step(1, 3, UpstreamErrorKind::Other), Recovery::GiveUp);
}
