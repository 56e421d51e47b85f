use std::time::Duration;

use governor::{Jitter, Quota};
use subway::cli::{default_config_path, Cli, Command};
use subway::config::rpc::{default_rate_limit_weight, RpcMethod};
use subway::extensions::api::hex::parse_hex_u64;
use subway::extensions::api::{
    finalized_step, get_hash, get_number, head_action, number_from_text, ApiError, FinalizedStep, HeadAction, HeadEvent,
    SubstrateApiConfig,
};
use subway::extensions::cache::{method_cache_params, Cache, CacheConfig};
use subway::extensions::event_bus::{EventBus, EventBusConfig};
use subway::extensions::merge_subscription::{MergeSubscription, MergeSubscriptionConfig};
use subway::extensions::merge_subscriptions::{MergeSubscriptions, MergeSubscriptionsConfig};
use subway::extensions::rate_limit::weight::MethodWeights;
use subway::extensions::rate_limit::xff::forwarded_client;
use subway::extensions::rate_limit::{
    build_quota, default_jitter_up_to_millis, default_period_secs, replenish_interval_ns,
    RateLimitBuilder, RateLimitConfig, Rule, MAX_JITTER_MILLIS,
};
use subway::extensions::server::proxy_get_request::{ProxyError, ProxyGetRequest, ProxyGetRequestLayer, ProxyGetRequestMethod};
use subway::extensions::server::single::{HealthConfig, Server, ServerConfig as SingleServerConfig};
use subway::extensions::server::{
    batch_policy, connection_ip, cors_policy, default_max_subscriptions_per_connection,
    default_request_timeout_seconds, proxy_methods, BatchPolicy, CorsPolicy, HttpMethodsConfig, ItemOrList, Protocol,
    ServerConfig, SubwayServerBuilder,
};
use subway::extensions::telemetry::{telemetry_plan, TelemetryConfig, TelemetryProvider};
use subway::extensions::validate::{Validate, ValidateConfig};
use subway::extensions::{lookup_action, ExtensionRegistry, LookupAction};
use subway::helpers::Tracer;

fn method(name: &str, weight: u32) -> RpcMethod {
    RpcMethod {
        method: name.to_string(),
        cache: None,
        params: vec![],
        response: None,
        delay_ms: None,
        rate_limit_weight: weight,
    }
}

fn json(s: &str) -> serde_json::Value {
    serde_json::from_str(s).unwrap()
}

#[test]
fn method_weights_default_to_one() {
    let mut w = MethodWeights::new();
    assert_eq!(w.get("a"), 1);
    w.add("a", 5);
    w.add("b", 0);
    assert_eq!(w.get("a"), 5);
    assert_eq!(w.get("b"), 0);
    w.add("a", 3);
    assert_eq!(w.get("a"), 3);
    assert_eq!(w.get("c"), 1);
    let w = MethodWeights::from_config(&[method("x", 10), method("y", 2), method("x", 4)]);
    assert_eq!(w.get("x"), 4);
    assert_eq!(w.get("y"), 2);
    assert_eq!(w.get("z"), 1);
    assert_eq!(default_rate_limit_weight(), 1);
}

#[test]
fn rule_defaults() {
    assert_eq!(default_period_secs(), 1);
    assert_eq!(default_jitter_up_to_millis(), 100);
}

#[test]
fn replenish_interval_values() {
    assert_eq!(replenish_interval_ns(10, 1), 100_000_000);
    assert_eq!(replenish_interval_ns(3, 1), 333_333_333);
    assert_eq!(replenish_interval_ns(1, 60), 60_000_000_000);
    assert_eq!(replenish_interval_ns(u32::MAX, 1), 0);
}

#[test]
fn quota_as_governor_builds_it() {
    let q = build_quota(10, 2);
    let expected = Quota::with_period(Duration::from_nanos(200_000_000))
        .unwrap()
        .allow_burst(std::num::NonZeroU32::new(10).unwrap());
    assert_eq!(q, expected);
    assert_eq!(q.burst_size().get(), 10);
    assert_eq!(q.replenish_interval(), Duration::from_millis(200));
}

#[test]
fn rate_limit_builder_limits() {
    let none = RateLimitBuilder::new(RateLimitConfig::default());
    assert!(none.connection_limit(MethodWeights::new()).is_none());
    assert!(none.ip_limit("1.2.3.4".to_string(), MethodWeights::new()).is_none());
    assert!(none.ip_quota().is_none());
    assert!(!none.use_xff());

    let config = RateLimitConfig {
        ip: Some(Rule { burst: 20, period_secs: 1, jitter_up_to_millis: 50 }),
        connection: Some(Rule { burst: 5, period_secs: 2, jitter_up_to_millis: 10 }),
        use_xff: true,
    };
    let b = RateLimitBuilder::new(config);
    assert!(b.use_xff());
    let c = b.connection_limit(MethodWeights::new()).unwrap();
    assert_eq!(c.burst, 5);
    assert_eq!(c.period_secs, 2);
    assert_eq!(c.jitter, Jitter::up_to(Duration::from_millis(10)));
    let ip = b.ip_limit("1.2.3.4".to_string(), MethodWeights::new()).unwrap();
    assert_eq!(ip.ip_addr, "1.2.3.4");
    assert_eq!(ip.jitter, Jitter::up_to(Duration::from_millis(50)));
    assert_eq!(b.ip_quota().unwrap(), build_quota(20, 1));
}

#[test]
fn forwarded_client_takes_first_entry() {
    let cases = vec![
        ("", ""),
        ("foo,bar", "foo"),
        ("1.2.3.4:1234,foo,bar", "1.2.3.4:1234"),
        ("203.0.113.195, 70.41.3.18, 150.172.238.178", "203.0.113.195"),
        ("203.0.113.195", "203.0.113.195"),
        ("[::1]:1234,foo,bar", "[::1]:1234"),
        ("[2001:db8::1a2b:3c4d]:41237, 198.51.100.100:26321", "[2001:db8::1a2b:3c4d]:41237"),
    ];
    for (xff, first) in cases {
        assert_eq!(forwarded_client(xff), first);
    }
}

fn server_config() -> ServerConfig {
    ServerConfig {
        port: 9944,
        listen_address: "0.0.0.0".to_string(),
        max_connections: 100,
        max_subscriptions_per_connection: default_max_subscriptions_per_connection(),
        max_batch_size: None,
        http_methods: vec![HttpMethodsConfig { path: "/health".to_string(), method: "system_health".to_string() }],
        request_timeout_seconds: default_request_timeout_seconds(),
        cors: None,
    }
}

#[test]
fn server_defaults_and_builder() {
    assert_eq!(default_request_timeout_seconds(), 120);
    assert_eq!(default_max_subscriptions_per_connection(), 1024);
    let b = SubwayServerBuilder::new(server_config());
    assert_eq!(b.config.port, 9944);
    let methods = proxy_methods(&b.config.http_methods);
    assert_eq!(methods.len(), 1);
    assert_eq!(methods[0].path, "/health");
    assert_eq!(methods[0].method, "system_health");
}

#[test]
fn cors_policies() {
    assert!(matches!(cors_policy(None), CorsPolicy::Default));
    assert!(matches!(cors_policy(Some(ItemOrList::List(vec![]))), CorsPolicy::Default));
    assert!(matches!(cors_policy(Some(ItemOrList::Item("*".to_string()))), CorsPolicy::Permissive));
    assert!(matches!(cors_policy(Some(ItemOrList::List(vec!["all".to_string()]))), CorsPolicy::Permissive));
    match cors_policy(Some(ItemOrList::List(vec!["*".to_string(), "http://a".to_string()]))) {
        CorsPolicy::List(l) => assert_eq!(l, vec!["*".to_string(), "http://a".to_string()]),
        _ => panic!("expected a list"),
    }
    match cors_policy(Some(ItemOrList::Item("http://a".to_string()))) {
        CorsPolicy::List(l) => assert_eq!(l, vec!["http://a".to_string()]),
        _ => panic!("expected a list"),
    }
    assert_eq!(ItemOrList::Item(3).into_list(), vec![3]);
    assert_eq!(ItemOrList::List(vec![1, 2]).into_list(), vec![1, 2]);
}

#[test]
fn batch_policies() {
    assert_eq!(batch_policy(Some(0)), BatchPolicy::Disabled);
    assert_eq!(batch_policy(Some(10)), BatchPolicy::Limit(10));
    assert_eq!(batch_policy(None), BatchPolicy::Unlimited);
}

#[test]
fn connection_ip_choice() {
    let s = "10.0.0.1".to_string();
    assert_eq!(connection_ip(s.clone(), Some(true), Some("1.1.1.1".to_string())), "1.1.1.1");
    assert_eq!(connection_ip(s.clone(), Some(true), None), "10.0.0.1");
    assert_eq!(connection_ip(s.clone(), Some(false), Some("1.1.1.1".to_string())), "10.0.0.1");
    assert_eq!(connection_ip(s, None, Some("1.1.1.1".to_string())), "10.0.0.1");
}

#[test]
fn protocol_labels() {
    assert_eq!(Protocol::of_connection(true), Protocol::Ws);
    assert_eq!(Protocol::of_connection(false), Protocol::Http);
    assert_eq!(Protocol::Ws.to_string(), "ws");
    assert_eq!(Protocol::Http.to_string(), "http");
}

#[test]
fn proxy_paths() {
    let bad = vec![ProxyGetRequestMethod { path: "health".to_string(), method: "m".to_string() }];
    let err = ProxyGetRequestLayer::new(bad.clone()).unwrap_err();
    assert_eq!(err, ProxyError::PathNotAbsolute);
    assert_eq!(err.message(), "ProxyGetRequestLayer path must start with `/`");
    assert!(ProxyGetRequest::new((), bad).is_err());

    let methods = vec![
        ProxyGetRequestMethod { path: "/health".to_string(), method: "system_health".to_string() },
        ProxyGetRequestMethod { path: "/head".to_string(), method: "chain_getHead".to_string() },
        ProxyGetRequestMethod { path: "/health".to_string(), method: "system_health2".to_string() },
    ];
    let layer = ProxyGetRequestLayer::new(methods.clone()).unwrap();
    assert_eq!(layer.methods().len(), 3);
    let proxy = ProxyGetRequest::new(5u8, methods).unwrap();
    assert_eq!(*proxy.inner(), 5);
    assert_eq!(proxy.method_for("/health", true).as_deref(), Some("system_health2"));
    assert_eq!(proxy.method_for("/head", true).as_deref(), Some("chain_getHead"));
    assert_eq!(proxy.method_for("/head", false), None);
    assert_eq!(proxy.method_for("/", true), None);
    assert_eq!(
        proxy.call_body_for("/health", true),
        Some(br#"{"jsonrpc":"2.0","id":0,"method":"system_health2"}"#.to_vec())
    );
    assert_eq!(proxy.call_body_for("/health", false), None);
    assert_eq!(proxy.call_body_for("/none", true), None);
}

#[test]
fn single_server_config() {
    let s = Server::new(SingleServerConfig {
        port: 1,
        listen_address: "127.0.0.1".to_string(),
        max_connections: 2,
        health: Some(HealthConfig { path: "/health".to_string(), method: "system_health".to_string() }),
    });
    assert_eq!(s.config.max_connections, 2);
}

#[test]
fn block_numbers() {
    assert_eq!(get_number(&json(r#"{"number":"0x10"}"#)), Ok(16));
    assert_eq!(get_number(&json(r#"{"number":"0xFFFFFFFFFFFFFFFF"}"#)), Ok(u64::MAX));
    assert_eq!(get_number(&json(r#"{"number":"0x+ff"}"#)), Ok(255));
    assert_eq!(get_number(&json(r#"{"number":"0x10000000000000000"}"#)), Err(ApiError::NumberFormat));
    assert_eq!(get_number(&json(r#"{"number":"0x"}"#)), Err(ApiError::NumberFormat));
    assert_eq!(get_number(&json(r#"{"number":"0xzz"}"#)), Err(ApiError::NumberFormat));
    assert_eq!(get_number(&json(r#"{"number":"16"}"#)), Err(ApiError::InvalidNumber));
    assert_eq!(get_number(&json(r#"{"number":16}"#)), Err(ApiError::InvalidNumber));
    assert_eq!(get_number(&json(r#"[1]"#)), Err(ApiError::InvalidNumber));
    assert_eq!(ApiError::InvalidNumber.message(), "Invalid number");
}

#[test]
fn hex_like_from_str_radix() {
    for s in ["0", "ff", "FF", "+1a", "+", "", "-1", "1g", "ffffffffffffffff", "10000000000000000", "00000000000000000001"] {
        assert_eq!(parse_hex_u64(s), u64::from_str_radix(s, 16).ok(), "{}", s);
    }
}

#[test]
fn block_hashes() {
    assert_eq!(get_hash(&json(r#"{"hash":"0xabcd"}"#)), Ok(json(r#""0xabcd""#)));
    assert_eq!(get_hash(&json(r#"{"hash":1}"#)), Err(ApiError::HashNotFound));
    assert_eq!(get_hash(&json(r#"{}"#)), Err(ApiError::HashNotFound));
    assert_eq!(ApiError::HashNotFound.message(), "Hash not found");
}

#[test]
fn head_actions() {
    assert_eq!(head_action(HeadEvent::Head(json(r#"{"number":"0x5"}"#))), HeadAction::FetchHash(5));
    assert_eq!(head_action(HeadEvent::Head(json(r#"{"number":5}"#))), HeadAction::Abort(ApiError::InvalidNumber));
    assert_eq!(head_action(HeadEvent::Ended), HeadAction::Resubscribe);
    assert_eq!(head_action(HeadEvent::Stale), HeadAction::RotateEndpoint);
    let c = SubstrateApiConfig { stale_timeout_ms: 60_000 };
    assert_eq!(c.stale_timeout_ms, 60_000);
}

#[test]
fn cli_validate_command() {
    let cli = Cli { config: default_config_path(), command: Some(Command::Validate) };
    assert!(cli.is_validate());
    assert_eq!(cli.config, "configs/config.yml");
    let cli = Cli { config: "x.yml".to_string(), command: None };
    assert!(!cli.is_validate());
}

#[test]
fn telemetry_plans() {
    let cfg = TelemetryConfig { provider: TelemetryProvider::Off, service_name: None, agent_endpoint: None };
    assert!(telemetry_plan(&cfg, Some("x".to_string())).is_none());
    let cfg = TelemetryConfig {
        provider: TelemetryProvider::Datadog,
        service_name: None,
        agent_endpoint: Some("http://conf".to_string()),
    };
    let p = telemetry_plan(&cfg, Some("http://env".to_string())).unwrap();
    assert_eq!(p.service_name, "subway");
    assert_eq!(p.agent_endpoint.as_deref(), Some("http://env"));
    let p = telemetry_plan(&cfg, None).unwrap();
    assert_eq!(p.agent_endpoint.as_deref(), Some("http://conf"));
    let cfg = TelemetryConfig {
        provider: TelemetryProvider::Jaeger,
        service_name: Some("gw".to_string()),
        agent_endpoint: Some("a:6831".to_string()),
    };
    let p = telemetry_plan(&cfg, Some("http://env".to_string())).unwrap();
    assert_eq!(p.provider, TelemetryProvider::Jaeger);
    assert_eq!(p.service_name, "gw");
    assert_eq!(p.agent_endpoint.as_deref(), Some("a:6831"));
}

#[test]
fn validate_ignores_listed_methods() {
    let v = Validate::new(ValidateConfig { ignore_methods: vec!["system_health".to_string()] });
    assert!(v.ignore(&"system_health".to_string()));
    assert!(!v.ignore(&"system".to_string()));
    assert!(!Validate::default().ignore(&"x".to_string()));
}

#[test]
fn registry_lookup() {
    assert_eq!(lookup_action(true, true), LookupAction::UseExisting);
    assert_eq!(lookup_action(true, false), LookupAction::UseExisting);
    assert_eq!(lookup_action(false, true), LookupAction::Build);
    assert_eq!(lookup_action(false, false), LookupAction::Missing);
    let r = ExtensionRegistry::new(1u8, "builder");
    assert_eq!(*r.registry(), 1);
    assert_eq!(*r.builder(), "builder");
}

#[test]
fn small_extensions() {
    let c = Cache::new(CacheConfig { default_ttl_seconds: Some(5), default_size: 10 });
    assert_eq!(method_cache_params(&c.config, None, None), (10, Some(5)));
    assert_eq!(method_cache_params(&c.config, Some(0), Some(1)), (0, Some(1)));
    let m = MergeSubscription::new(MergeSubscriptionConfig { keep_alive_seconds: Some(3) });
    assert_eq!(m.config.keep_alive_seconds, Some(3));
    let m = MergeSubscriptions::new(MergeSubscriptionsConfig { keep_alive_seconds: None });
    assert_eq!(m.keep_alive_seconds(), None);
    let _ = EventBus::new(EventBusConfig);
    assert_eq!(Tracer::new("client").name(), "client");
}

#[test]
fn finalized_head_going_back_rotates() {
    // the scenario of an endpoint whose finalized head goes from 2 back to 1
    assert_eq!(finalized_step(None, 1), FinalizedStep::Publish);
    assert_eq!(finalized_step(Some(1), 2), FinalizedStep::Publish);
    assert_eq!(finalized_step(Some(2), 1), FinalizedStep::RotateEndpoint);
    assert_eq!(finalized_step(Some(2), 2), FinalizedStep::Publish);
    assert_eq!(finalized_step(Some(2), 3), FinalizedStep::Publish);
    assert_eq!(finalized_step(Some(u64::MAX), 0), FinalizedStep::RotateEndpoint);
}

#[test]
fn block_numbers_from_text() {
    assert_eq!(number_from_text("0x01"), Ok(1));
    assert_eq!(number_from_text("0xdd"), Ok(0xdd));
    assert_eq!(number_from_text("0x"), Err(ApiError::NumberFormat));
    assert_eq!(number_from_text("1"), Err(ApiError::InvalidNumber));
    assert_eq!(number_from_text(""), Err(ApiError::InvalidNumber));
}

#[test]
fn longest_jitter_is_accepted() {
    assert_eq!(MAX_JITTER_MILLIS, 18_446_744_073_709);
    assert!((MAX_JITTER_MILLIS as u128) * 1_000_000 <= u64::MAX as u128);
    assert!((MAX_JITTER_MILLIS as u128 + 1) * 1_000_000 > u64::MAX as u128);
    let config = RateLimitConfig {
        ip: Some(Rule { burst: 1, period_secs: 1, jitter_up_to_millis: MAX_JITTER_MILLIS }),
        connection: Some(Rule { burst: 1, period_secs: 1, jitter_up_to_millis: MAX_JITTER_MILLIS }),
        use_xff: false,
    };
    let b = RateLimitBuilder::new(config);
    let c = b.connection_limit(MethodWeights::new()).unwrap();
    assert_eq!(c.jitter, Jitter::up_to(Duration::from_millis(MAX_JITTER_MILLIS)));
}

#[test]
fn extensions_built_once() {
    assert_eq!(lookup_action(false, true), LookupAction::Build);
    assert_eq!(lookup_action(true, true), LookupAction::UseExisting);
    assert_eq!(lookup_action(true, false), LookupAction::UseExisting);
    assert_eq!(lookup_action(false, false), LookupAction::Missing);
}
