use ladder_core::config::{
    default_control_port, default_interval, default_port, default_socks_port,
    normalize_subscription_name, strip_yaml_suffix, subscription_name_matches, LadderConfig,
    Subscription,
};
use ladder_core::url::{default_subscription_name_from_url, validate_subscription_url, UrlError};

fn sub(name: &str, url: &str, interval: u64) -> Subscription {
    Subscription { name: name.to_string(), url: url.to_string(), interval }
}

#[test]
fn test_default_config() {
    let cfg = LadderConfig::default();
    assert_eq!(cfg.ladder.port, 7890);
    assert_eq!(cfg.ladder.socks_port, 7891);
    assert_eq!(cfg.ladder.control_port, 9090);
    assert!(cfg.subscriptions.is_empty());
}

#[test]
fn test_add_remove_subscription() {
    let mut cfg = LadderConfig::default();
    cfg.add_subscription(Subscription {
        name: "机场A.yaml".to_string(),
        url: "https://example.com/sub".to_string(),
        interval: 86400,
    });
    assert_eq!(cfg.subscriptions.len(), 1);
    assert!(cfg.get_subscription("机场A").is_some());

    let removed = cfg.remove_subscription("机场A");
    assert!(removed);
    assert!(cfg.subscriptions.is_empty());
}

#[test]
fn test_filter_subscriptions() {
    let mut cfg = LadderConfig::default();
    cfg.add_subscription(Subscription { name: "A.yaml".to_string(), url: "u1".to_string(), interval: 86400 });
    cfg.add_subscription(Subscription { name: "B".to_string(), url: "u2".to_string(), interval: 86400 });
    cfg.add_subscription(Subscription { name: "C".to_string(), url: "u3".to_string(), interval: 86400 });

    let filtered = cfg.filter_subscriptions(&["A".to_string(), "C".to_string()]);
    assert_eq!(filtered.len(), 2);

    let all = cfg.filter_subscriptions(&[]);
    assert_eq!(all.len(), 3);
}

#[test]
fn test_validate_subscription_url() {
    assert!(validate_subscription_url("https://example.com/sub.yaml").is_ok());
    assert!(validate_subscription_url("http://example.com/sub.yaml").is_ok());
    assert!(validate_subscription_url("file:///tmp/sub.yaml").is_err());
}

#[test]
fn test_default_subscription_name_from_url() {
    let name = default_subscription_name_from_url("https://files.ddddavid.cn/private/WestWorld.yaml?token=abc").unwrap();
    assert_eq!(name, "WestWorld");
}

#[test]
fn default_values_are_the_documented_ports() {
    assert_eq!(default_port(), 7890);
    assert_eq!(default_socks_port(), 7891);
    assert_eq!(default_control_port(), 9090);
    assert_eq!(default_interval(), 86400);
}

#[test]
fn name_matching_ignores_suffix_case_and_blanks() {
    assert!(subscription_name_matches("  Airport.yml ", "AIRPORT"));
    assert!(!subscription_name_matches("Airport.YML", "airport"));
    assert!(subscription_name_matches("x", "x"));
    assert!(!subscription_name_matches("A", "B"));
    assert_eq!(normalize_subscription_name("  West.World.yaml "), "west.world");
    assert_eq!(strip_yaml_suffix("a.yml"), "a");
    assert_eq!(strip_yaml_suffix("a.yaml.yml"), "a.yaml");
    assert_eq!(strip_yaml_suffix(".yaml"), "");
    assert_eq!(strip_yaml_suffix("yaml"), "yaml");
}

#[test]
fn add_replaces_a_matching_subscription() {
    let mut cfg = LadderConfig::default();
    cfg.add_subscription(sub("A", "u1", 1));
    cfg.add_subscription(sub("B", "u2", 2));
    cfg.add_subscription(sub("a.yaml", "u3", 3));
    assert_eq!(cfg.subscriptions.len(), 2);
    assert_eq!(cfg.subscriptions[0].name, "a.yaml");
    assert_eq!(cfg.subscriptions[0].url, "u3");
    assert_eq!(cfg.subscriptions[0].interval, 3);
    assert_eq!(cfg.subscriptions[1].name, "B");
}

#[test]
fn get_after_add_returns_the_added_subscription() {
    let mut cfg = LadderConfig::default();
    cfg.add_subscription(sub("x", "u0", 5));
    cfg.add_subscription(sub("Y.yaml", "u1", 7));
    let got = cfg.get_subscription("Y.yaml").unwrap();
    assert_eq!(got.url, "u1");
    assert_eq!(got.interval, 7);
    assert!(cfg.get_subscription("z").is_none());
}

#[test]
fn adding_twice_equals_adding_once() {
    let mut once = LadderConfig::default();
    once.add_subscription(sub("A", "u", 1));
    let mut twice = LadderConfig::default();
    twice.add_subscription(sub("A", "u", 1));
    twice.add_subscription(sub("A", "u", 1));
    assert_eq!(once.subscriptions.len(), twice.subscriptions.len());
}

#[test]
fn remove_reports_missing_name_and_keeps_others() {
    let mut cfg = LadderConfig::default();
    cfg.add_subscription(sub("A", "u1", 1));
    cfg.add_subscription(sub("B", "u2", 2));
    assert!(!cfg.remove_subscription("C"));
    assert_eq!(cfg.subscriptions.len(), 2);
    assert!(cfg.remove_subscription(" b.yml"));
    assert_eq!(cfg.subscriptions.len(), 1);
    assert_eq!(cfg.subscriptions[0].name, "A");
    assert!(cfg.get_subscription("B").is_none());
}

#[test]
fn filter_keeps_configuration_order() {
    let mut cfg = LadderConfig::default();
    cfg.add_subscription(sub("A", "u1", 1));
    cfg.add_subscription(sub("B", "u2", 2));
    cfg.add_subscription(sub("C", "u3", 3));
    let f = cfg.filter_subscriptions(&["C".to_string(), "A".to_string(), "Z".to_string()]);
    let names: Vec<&str> = f.iter().map(|s| s.name.as_str()).collect();
    assert_eq!(names, vec!["A", "C"]);
}

#[test]
fn url_errors_are_distinguished() {
    assert!(matches!(validate_subscription_url("not a url"), Err(UrlError::Invalid)));
    match validate_subscription_url("ftp://example.com/x") {
        Err(UrlError::UnsupportedScheme(s)) => assert_eq!(s, "ftp"),
        _ => panic!("expected an unsupported scheme"),
    }
}

#[test]
fn default_name_falls_back_to_host_then_literal() {
    assert_eq!(default_subscription_name_from_url("https://example.com/").unwrap(), "example.com");
    assert_eq!(default_subscription_name_from_url("https://example.com/a/b.yml/").unwrap(), "b");
    assert_eq!(default_subscription_name_from_url("https://example.com/.yaml").unwrap(), "example.com");
    assert!(default_subscription_name_from_url("mailto:x@example.com").is_err());
}

#[test]
fn adding_keeps_subscription_names_distinct() {
    let mut cfg = LadderConfig::default();
    cfg.add_subscription(sub("a.yaml", "https://a", 1));
    cfg.add_subscription(sub("b", "https://b", 2));
    cfg.add_subscription(sub("a", "https://a2", 3));
    cfg.add_subscription(sub("B.yml", "https://b2", 4));
    assert_eq!(cfg.subscriptions.len(), 2);
    for i in 0..cfg.subscriptions.len() {
        for j in 0..cfg.subscriptions.len() {
            if i != j {
                assert!(!subscription_name_matches(&cfg.subscriptions[i].name, &cfg.subscriptions[j].name));
            }
        }
    }
}
