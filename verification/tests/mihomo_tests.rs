use ladder_core::config::{LadderConfig, LadderSettings, Subscription};
use ladder_core::mihomo::{
    config_strategy, detect_subscription_format, format_from_keys, full_config_update_report,
    generate_config_yaml, inspect_subscription, merge_full_config, mihomo_source, preview_text,
    unsupported_format_message,
    provider_update_report, strategy_description, subscription_fetch_problem, ConfigStrategy,
    ConfigYamlError, MihomoSource, MihomoTarget, StrategyError, SubscriptionFormat, TargetError,
};

fn make_config() -> LadderConfig {
    LadderConfig {
        ladder: LadderSettings::default(),
        subscriptions: vec![
            Subscription {
                name: "机场A".to_string(),
                url: "https://sub.example.com/a".to_string(),
                interval: 86400,
            },
            Subscription {
                name: "机场B".to_string(),
                url: "https://sub.example.com/b".to_string(),
                interval: 43200,
            },
        ],
    }
}

#[test]
fn test_generate_config_yaml_two_subs() {
    let cfg = make_config();
    let subs: Vec<&Subscription> = cfg.subscriptions.iter().collect();
    let yaml = generate_config_yaml(&cfg, &subs).unwrap();
    assert!(yaml.contains("机场A"));
    assert!(yaml.contains("机场B"));
    assert!(yaml.contains("proxy-providers"));
    assert!(yaml.contains("proxy-groups"));
    assert!(yaml.contains("PROXY"));
    assert!(yaml.contains("external-controller"));
    assert!(yaml.contains("7890") || yaml.contains("mixed-port"));
}

#[test]
fn test_generate_config_yaml_empty_fails() {
    let cfg = make_config();
    assert!(generate_config_yaml(&cfg, &[]).is_err());
}

#[test]
fn test_mihomo_target_url() {
    let t = MihomoTarget { os: "linux", arch: "amd64" };
    let url = t.download_url("v1.18.0");
    assert!(url.contains("linux-amd64"));
    assert!(url.contains("v1.18.0"));
    assert!(url.contains("github.com"));
}

#[test]
fn test_generate_config_rules() {
    let cfg = make_config();
    let subs: Vec<&Subscription> = cfg.subscriptions.iter().collect();
    let yaml = generate_config_yaml(&cfg, &subs).unwrap();
    assert!(yaml.contains("GEOIP,CN,DIRECT"));
    assert!(yaml.contains("MATCH,PROXY"));
}

#[test]
fn test_detect_full_config() {
    let yaml = r#"
port: 7890
mode: rule
proxies:
  - name: node1
    type: ss
    server: example.com
    port: 443
proxy-groups:
  - name: PROXY
    type: select
    proxies: [node1]
rules:
  - MATCH,PROXY
"#;
    assert_eq!(detect_subscription_format(yaml), SubscriptionFormat::FullConfig);
}

#[test]
fn test_detect_proxy_provider() {
    let yaml = r#"
proxies:
  - name: node1
    type: ss
    server: example.com
    port: 443
  - name: node2
    type: vmess
    server: example.com
    port: 8443
"#;
    assert_eq!(detect_subscription_format(yaml), SubscriptionFormat::ProxyProvider);
}

#[test]
fn test_detect_full_config_without_top_level_proxies() {
    let yaml = r#"
proxy-providers:
  westworld:
    type: http
    url: https://files.ddddavid.cn/private/WestWorld.yaml
    interval: 86400
proxy-groups:
  - name: PROXY
    type: select
    use: [westworld]
rules:
  - MATCH,PROXY
"#;
    assert_eq!(detect_subscription_format(yaml), SubscriptionFormat::FullConfig);
}

#[test]
fn test_detect_invalid_yaml() {
    assert_eq!(detect_subscription_format("not: valid: yaml: ["), SubscriptionFormat::Unknown);
}

#[test]
fn test_detect_html_response_as_unknown() {
    let html = "<html><body>403 Forbidden</body></html>";
    assert_eq!(detect_subscription_format(html), SubscriptionFormat::Unknown);
}

#[test]
fn test_merge_full_config_overrides_ports() {
    let yaml = r#"
mixed-port: 1234
socks-port: 5678
external-controller: "127.0.0.1:9999"
mode: rule
proxies: []
proxy-groups: []
rules:
  - MATCH,DIRECT
"#;
    let cfg = make_config();
    let merged = merge_full_config(yaml, &cfg).unwrap();
    let val: serde_yaml::Value = serde_yaml::from_str(&merged).unwrap();
    let map = val.as_mapping().unwrap();
    assert_eq!(
        map[&serde_yaml::Value::String("mixed-port".into())],
        serde_yaml::Value::Number(cfg.ladder.port.into())
    );
    assert_eq!(
        map[&serde_yaml::Value::String("socks-port".into())],
        serde_yaml::Value::Number(cfg.ladder.socks_port.into())
    );
    let ctrl = map[&serde_yaml::Value::String("external-controller".into())]
        .as_str()
        .unwrap();
    assert!(ctrl.contains(&cfg.ladder.control_port.to_string()));
}

#[test]
fn target_for_platforms() {
    let t = MihomoTarget::current("macos", "aarch64").unwrap();
    assert_eq!(t.os, "darwin");
    assert_eq!(t.arch, "arm64");
    assert_eq!(t.asset_name("v1.18.0"), "mihomo-darwin-arm64-v1.18.0.gz");
    assert_eq!(
        t.download_url("v1.18.0"),
        "https://github.com/MetaCubeX/mihomo/releases/download/v1.18.0/mihomo-darwin-arm64-v1.18.0.gz"
    );
    assert!(t.download_url("v2").ends_with(&format!("/{}", t.asset_name("v2"))));
    assert!(matches!(MihomoTarget::current("windows", "x86_64"), Err(TargetError::UnsupportedOs(o)) if o == "windows"));
    assert!(matches!(MihomoTarget::current("linux", "riscv64"), Err(TargetError::UnsupportedArch(a)) if a == "riscv64"));
}

#[test]
fn generated_config_has_exact_structure() {
    let mut cfg = make_config();
    cfg.ladder.api_secret = Some("s3".to_string());
    let subs: Vec<&Subscription> = cfg.subscriptions.iter().collect();
    let yaml = generate_config_yaml(&cfg, &subs).unwrap();
    let val: serde_yaml::Value = serde_yaml::from_str(&yaml).unwrap();
    assert_eq!(val["mixed-port"], serde_yaml::Value::from(7890u64));
    assert_eq!(val["socks-port"], serde_yaml::Value::from(7891u64));
    assert_eq!(val["allow-lan"], serde_yaml::Value::from(false));
    assert_eq!(val["external-controller"], serde_yaml::Value::from("127.0.0.1:9090"));
    assert_eq!(val["secret"], serde_yaml::Value::from("s3"));
    assert_eq!(val["proxy-providers"]["机场B"]["interval"], serde_yaml::Value::from(43200u64));
    assert_eq!(val["proxy-providers"]["机场A"]["health-check"]["interval"], serde_yaml::Value::from(300u64));
    assert_eq!(val["proxy-groups"][0]["name"], serde_yaml::Value::from("PROXY"));
    assert_eq!(val["proxy-groups"][1]["type"], serde_yaml::Value::from("url-test"));
    assert_eq!(val["proxy-groups"][0]["use"][1], serde_yaml::Value::from("机场B"));
    assert_eq!(val["rules"].as_sequence().unwrap().len(), 7);
    let keys: Vec<&str> = val.as_mapping().unwrap().keys().map(|k| k.as_str().unwrap()).collect();
    assert_eq!(keys, vec!["mixed-port", "socks-port", "allow-lan", "mode", "log-level", "external-controller", "secret", "proxy-providers", "proxy-groups", "rules"]);
}

#[test]
fn merge_errors_and_secret() {
    let mut cfg = make_config();
    assert_eq!(merge_full_config("a: [", &cfg), Err(ConfigYamlError::Parse));
    assert_eq!(merge_full_config("- a\n- b\n", &cfg), Err(ConfigYamlError::NotMapping));
    cfg.ladder.api_secret = Some("k".to_string());
    let merged = merge_full_config("mode: rule\nsecret: old\n", &cfg).unwrap();
    let val: serde_yaml::Value = serde_yaml::from_str(&merged).unwrap();
    assert_eq!(val["secret"], serde_yaml::Value::from("k"));
    assert_eq!(val["mode"], serde_yaml::Value::from("rule"));
}

#[test]
fn format_from_keys_prefers_full_config() {
    assert_eq!(format_from_keys(&vec![Some("proxies".to_string()), Some("dns".to_string())]), SubscriptionFormat::FullConfig);
    assert_eq!(format_from_keys(&vec![None, Some("proxies".to_string())]), SubscriptionFormat::ProxyProvider);
    assert_eq!(format_from_keys(&vec![Some("other".to_string())]), SubscriptionFormat::Unknown);
    assert_eq!(format_from_keys(&vec![]), SubscriptionFormat::Unknown);
    assert_eq!(detect_subscription_format("just text"), SubscriptionFormat::Unknown);
}

#[test]
fn preview_takes_three_trimmed_lines() {
    assert_eq!(preview_text("  a \n\n b\r\nc\nd"), "a b c");
    assert_eq!(preview_text(""), "");
    let long = "x".repeat(200);
    let p = preview_text(&long);
    assert_eq!(p.chars().count(), 161);
    assert!(p.ends_with('…'));
}

#[test]
fn fetch_problems_are_reported() {
    assert_eq!(
        subscription_fetch_problem(false, "403 Forbidden", None, "<p>no</p>", "u").unwrap(),
        "Subscription fetch failed: HTTP 403 Forbidden (unknown content-type) — <p>no</p>"
    );
    assert_eq!(
        subscription_fetch_problem(false, "500", Some("text/plain"), "  ", "u").unwrap(),
        "Subscription fetch failed: HTTP 500 (text/plain)"
    );
    assert_eq!(
        subscription_fetch_problem(true, "200 OK", None, " \n ", "https://x").unwrap(),
        "Subscription response is empty: https://x"
    );
    assert!(subscription_fetch_problem(true, "200 OK", None, "proxies: []", "u").is_none());
}

#[test]
fn strategies_and_reports() {
    assert_eq!(config_strategy(&[]), Err(StrategyError::NoSubscriptions));
    assert_eq!(config_strategy(&[SubscriptionFormat::ProxyProvider, SubscriptionFormat::ProxyProvider]), Ok(ConfigStrategy::ProxyProvider));
    assert_eq!(config_strategy(&[SubscriptionFormat::FullConfig]), Ok(ConfigStrategy::FullConfig));
    assert_eq!(config_strategy(&[SubscriptionFormat::FullConfig, SubscriptionFormat::ProxyProvider]), Err(StrategyError::FullConfigNotAlone));
    assert_eq!(strategy_description(ConfigStrategy::FullConfig, "W"), "full-config (W)");
    assert_eq!(strategy_description(ConfigStrategy::ProxyProvider, "W"), "proxy-provider");
    let r = provider_update_report("A", Err("boom".to_string()));
    assert!(!r.success);
    assert_eq!(r.detail, "boom");
    let r = provider_update_report("A", Ok(()));
    assert!(r.success && r.detail == "proxy-provider");
    let r = full_config_update_report("F", Err("down".to_string()));
    assert!(r.success);
    assert_eq!(r.detail, "full-config, written — restart to apply (down)");
    assert_eq!(full_config_update_report("F", Ok(())).detail, "full-config, reloaded");
    assert_eq!(mihomo_source(true, false, true), MihomoSource::UserPathMissing);
    assert_eq!(mihomo_source(false, false, true), MihomoSource::Cached);
    assert_eq!(mihomo_source(false, false, false), MihomoSource::Download);
}

#[test]
fn unknown_subscription_is_refused_with_preview() {
    let html = "<html>\n<body>Login required</body>\n</html>";
    let err = inspect_subscription("机场A", html).unwrap_err();
    assert_eq!(
        err,
        "Subscription '机场A' is not a supported Mihomo/Clash YAML document. Response preview: <html> <body>Login required</body> </html>"
    );
}

#[test]
fn known_subscription_formats_pass_inspection() {
    let provider = "proxies:\n  - name: a\n    type: ss\n";
    assert_eq!(inspect_subscription("s", provider), Ok(SubscriptionFormat::ProxyProvider));
    let full = "mixed-port: 7890\nproxies: []\n";
    assert_eq!(inspect_subscription("s", full), Ok(SubscriptionFormat::FullConfig));
}

#[test]
fn unsupported_message_only_for_unknown_format() {
    assert_eq!(unsupported_format_message("x", SubscriptionFormat::FullConfig, "a"), None);
    assert_eq!(unsupported_format_message("x", SubscriptionFormat::ProxyProvider, "a"), None);
    assert_eq!(
        unsupported_format_message("x", SubscriptionFormat::Unknown, "  \n\n"),
        Some("Subscription 'x' is not a supported Mihomo/Clash YAML document. Response preview: ".to_string())
    );
}
