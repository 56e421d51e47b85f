use subway::config::rpc::{
    base_choice, validate_params_with_name, BaseChoice, MethodParam, ParamsErrorKind, RpcDefinitions, RpcMethod, RpcSubscription,
};
use subway::config::env::{env_overrides, parse_port, split_endpoints, trim_white_space};
use subway::config::template::render_template;
use subway::config::{validate_config, ConfigErrorKind, MiddlewaresConfig};
use subway::extensions::client::validate_endpoint;

fn param(name: &str, optional: bool, inject: bool) -> MethodParam {
    MethodParam {
        name: name.to_string(),
        ty: "u64".to_string(),
        optional,
        inject,
    }
}

fn method(name: &str, weight: u32) -> RpcMethod {
    RpcMethod {
        method: name.to_string(),
        cache: None,
        params: vec![],
        response: None,
        delay_ms: None,
        rate_limit_weight: weight,
    }
}

fn sub(name: &str, subscribe: &str) -> RpcSubscription {
    RpcSubscription {
        subscribe: subscribe.to_string(),
        unsubscribe: "unsub".to_string(),
        name: name.to_string(),
        merge_strategy: None,
    }
}

#[test]
fn test_render_template() {
    let env = vec![
        ("KEY".to_string(), "value".to_string()),
        ("ANOTHER_KEY".to_string(), "another_value".to_string()),
    ];
    let templated_config_str = "${env.KEY} ${env.ANOTHER_KEY}";
    let config_str = render_template(templated_config_str, &env).unwrap();
    assert_eq!(config_str, "value another_value");

    let env = vec![("ANOTHER_KEY".to_string(), "another_value".to_string())];
    let config_str = render_template(templated_config_str, &env);
    assert!(config_str.is_err());
}

#[test]
fn render_template_names_missing_variable() {
    let env = vec![("A".to_string(), "1".to_string())];
    let err = render_template("x ${env.A} ${env.MISSING} ${env.OTHER}", &env).unwrap_err();
    assert_eq!(err.variable, "MISSING");
    assert_eq!(err.message(), "Unable to replace environment variable MISSING");
}

#[test]
fn render_template_leaves_other_text() {
    let env = vec![("A".to_string(), "1".to_string())];
    assert_eq!(render_template("no references: $ { } ${env.}", &env).unwrap(), "no references: $ { } ${env.}");
    assert_eq!(render_template("${env.A", &env).unwrap(), "${env.A");
    assert_eq!(render_template("${env.A}${env.A}", &env).unwrap(), "11");
    assert_eq!(render_template("port: ${env.A}0\n", &env).unwrap(), "port: 10\n");
    assert_eq!(render_template("ü${env.A}ß", &env).unwrap(), "ü1ß");
}

#[test]
fn validate_params_succeeds_for_valid_params() {
    let valid_params = vec![param("param1", false, false), param("param2", true, false), param("param3", true, false)];
    let method_name = "test";
    assert!(validate_params_with_name(method_name, &valid_params).is_ok());
}

#[test]
fn validate_params_fails_for_more_than_one_param_has_inject_equals_true() {
    let another_invalid_params = vec![param("param1", false, true), param("param2", false, true), param("param3", false, true)];
    let method_name = "test";
    assert!(validate_params_with_name(method_name, &another_invalid_params).is_err());
}

#[test]
fn validate_params_fails_for_optional_params_are_not_the_last() {
    let method_name = "test";
    let invalid_params = vec![param("param1", false, false), param("param2", true, false), param("param3", false, true)];
    assert!(validate_params_with_name(method_name, &invalid_params).is_err());
}

#[test]
fn validate_params_reports_each_error() {
    let two_inject = vec![param("a", true, true), param("b", false, true)];
    let err = validate_params_with_name("m", &two_inject).unwrap_err();
    assert_eq!(err.kind, ParamsErrorKind::MoreThanOneInject);
    assert_eq!(err.message(), "method m has more than one inject param");

    let bad_order = vec![param("a", true, false), param("b", false, false)];
    let err = validate_params_with_name("m", &bad_order).unwrap_err();
    assert_eq!(err.kind, ParamsErrorKind::RequiredAfterOptional);
    assert_eq!(err.message(), "method m has required param after optional param");

    assert!(validate_params_with_name("m", &[]).is_ok());
    assert!(validate_params_with_name("m", &[param("a", true, true)]).is_ok());
}

#[test]
fn validate_config_checks_in_order() {
    let endpoints = vec!["ws://127.0.0.1:9944".to_string(), "https://example.com/rpc".to_string()];
    let mut m1 = method("good", 1);
    m1.params = vec![param("a", false, false), param("b", true, true)];
    let mut m2 = method("order", 1);
    m2.params = vec![param("a", true, false), param("b", false, false)];
    let mut m3 = method("inject", 1);
    m3.params = vec![param("a", false, true), param("b", false, true)];

    assert!(validate_config(&endpoints, &vec![method("x", 1)]).is_ok());

    let err = validate_config(&endpoints, &vec![m1, m2, m3]).unwrap_err();
    assert_eq!(err.kind, ConfigErrorKind::MoreThanOneInject);
    assert_eq!(err.subject, "inject");
    assert_eq!(err.message(), "Method inject has more than one inject param");

    let mut m2 = method("order", 1);
    m2.params = vec![param("a", true, false), param("b", false, false)];
    let err = validate_config(&endpoints, &vec![m2]).unwrap_err();
    assert_eq!(err.kind, ConfigErrorKind::RequiredAfterOptional);
    assert_eq!(err.message(), "Method order has required param after optional param");

    let bad = vec!["ws://ok:1".to_string(), "not a uri".to_string()];
    let err = validate_config(&bad, &vec![]).unwrap_err();
    assert_eq!(err.kind, ConfigErrorKind::InvalidEndpoint);
    assert_eq!(err.message(), "Invalid endpoint not a uri");
}

#[test]
fn uri_parsing() {
    assert!(validate_endpoint("wss://rpc.example.com:443/path").is_ok());
    assert!(validate_endpoint("http://localhost:8545").is_ok());
    assert!(validate_endpoint("has space").is_err());
    assert!(validate_endpoint("").is_err());
}

#[test]
fn definitions_merge_over_base() {
    let base = RpcDefinitions {
        methods: vec![method("c", 1), method("a", 1), method("b", 1)],
        subscriptions: vec![sub("s2", "old"), sub("s1", "old")],
        aliases: vec![("z".to_string(), "1".to_string()), ("y".to_string(), "2".to_string())],
    };
    let defs = RpcDefinitions::from_parts(
        Some(base),
        vec![method("b", 5), method("d", 2), method("b", 7)],
        vec![sub("s1", "new"), sub("s0", "new")],
        vec![("y".to_string(), "3".to_string())],
    );
    let names: Vec<(&str, u32)> = defs.methods.iter().map(|m| (m.method.as_str(), m.rate_limit_weight)).collect();
    assert_eq!(names, vec![("a", 1), ("b", 7), ("c", 1), ("d", 2)]);
    let subs: Vec<(&str, &str)> = defs.subscriptions.iter().map(|s| (s.name.as_str(), s.subscribe.as_str())).collect();
    assert_eq!(subs, vec![("s0", "new"), ("s1", "new"), ("s2", "old")]);
    assert_eq!(defs.aliases, vec![("y".to_string(), "3".to_string()), ("z".to_string(), "1".to_string())]);
}

#[test]
fn definitions_without_base_stand_as_given() {
    let defs = RpcDefinitions::from_parts(None, vec![method("b", 1), method("a", 1)], vec![], vec![]);
    let names: Vec<&str> = defs.methods.iter().map(|m| m.method.as_str()).collect();
    assert_eq!(names, vec!["b", "a"]);
}

#[test]
fn base_sort_is_stable() {
    let base = RpcDefinitions {
        methods: vec![method("b", 1), method("a", 1), method("b", 2), method("a", 2)],
        subscriptions: vec![],
        aliases: vec![],
    };
    let defs = RpcDefinitions::from_parts(Some(base), vec![], vec![], vec![]);
    let names: Vec<(&str, u32)> = defs.methods.iter().map(|m| (m.method.as_str(), m.rate_limit_weight)).collect();
    assert_eq!(names, vec![("a", 1), ("a", 2), ("b", 1), ("b", 2)]);
}

#[test]
fn middlewares_config_holds_names() {
    let m = MiddlewaresConfig {
        methods: vec!["cache".to_string()],
        subscriptions: vec!["merge_subscription".to_string()],
    };
    assert_eq!(m.methods.len(), 1);
    assert_eq!(m.subscriptions[0], "merge_subscription");
}

#[test]
fn port_parses_as_std_does() {
    for s in ["0", "80", "+80", "65535", "65536", "", "+", "-1", " 80", "8o", "00080", "999999999999"] {
        assert_eq!(parse_port(s), s.parse::<u16>().ok(), "{}", s);
    }
}

#[test]
fn trim_as_std_does() {
    for s in ["", " ", "  a b  ", "\t\nx\r\n", "\u{3000}y\u{a0}", "\u{200b}z", "ws://a"] {
        assert_eq!(trim_white_space(s), s.trim(), "{:?}", s);
    }
}

#[test]
fn endpoints_split_as_std_does() {
    for s in ["", "a", "a,b", " ws://a , wss://b ", "a,,b,", ","] {
        let expected: Vec<String> = s.split(',').map(|x| x.trim().to_string()).collect();
        assert_eq!(split_endpoints(s), expected, "{:?}", s);
    }
}

#[test]
fn environment_overrides() {
    let endpoints = vec!["ws://a".to_string()];
    assert_eq!(env_overrides(9944, endpoints.clone(), None, None), (9944, endpoints.clone()));
    assert_eq!(env_overrides(9944, endpoints.clone(), Some("8080".to_string()), None), (8080, endpoints.clone()));
    assert_eq!(env_overrides(9944, endpoints.clone(), Some("port".to_string()), None), (9944, endpoints.clone()));
    assert_eq!(
        env_overrides(9944, endpoints.clone(), None, Some("ws://b, ws://c".to_string())),
        (9944, vec!["ws://b".to_string(), "ws://c".to_string()])
    );
}

#[test]
fn merged_names_stay_unique_and_last_override_wins() {
    let base = RpcDefinitions {
        methods: vec![method("b", 1), method("a", 1)],
        subscriptions: vec![],
        aliases: vec![],
    };
    let defs = RpcDefinitions::from_parts(
        Some(base),
        vec![method("a", 3), method("c", 4), method("a", 5)],
        vec![],
        vec![],
    );
    let names: Vec<(&str, u32)> = defs.methods.iter().map(|m| (m.method.as_str(), m.rate_limit_weight)).collect();
    assert_eq!(names, vec![("a", 5), ("b", 1), ("c", 4)]);
}

#[test]
fn base_names() {
    assert_eq!(base_choice("sub"), BaseChoice::Substrate);
    assert_eq!(base_choice("Substrate"), BaseChoice::Substrate);
    assert_eq!(base_choice("ETH"), BaseChoice::Ethereum);
    assert_eq!(base_choice("ethereum"), BaseChoice::Ethereum);
    assert_eq!(base_choice("eth.yml"), BaseChoice::File);
    assert_eq!(base_choice("./configs/sub"), BaseChoice::File);
}
