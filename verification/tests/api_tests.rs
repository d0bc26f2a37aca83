use ladder_core::api::{
    bearer_value, best_delay, control_base_url, delay_from_response, first_reload_attempt,
    preview_chars, reload_step, urlencoding, HistoryEntry, ProxyInfo, ReloadAttempt, ReloadReply,
    ReloadStep,
};

fn info(history: Option<Vec<HistoryEntry>>, alive: Option<bool>) -> ProxyInfo {
    ProxyInfo {
        name: "test".to_string(),
        proxy_type: "ss".to_string(),
        now: None,
        all: None,
        history,
        alive,
        provider_name: None,
    }
}

#[test]
fn test_urlencoding() {
    assert_eq!(urlencoding("HK 01"), "HK%2001");
    assert_eq!(urlencoding("NoSpace"), "NoSpace");
}

#[test]
fn test_proxy_info_latest_delay_empty() {
    let p = info(None, None);
    assert_eq!(p.latest_delay(), 0);
}

#[test]
fn test_proxy_info_latest_delay() {
    let p = info(
        Some(vec![
            HistoryEntry { time: "2024-01-01".to_string(), delay: 50 },
            HistoryEntry { time: "2024-01-02".to_string(), delay: 23 },
        ]),
        Some(true),
    );
    assert_eq!(p.latest_delay(), 23);
}

#[test]
fn test_mihomo_api_new() {
    assert_eq!(control_base_url(9090), "http://127.0.0.1:9090");
}

#[test]
fn encoding_and_headers() {
    assert_eq!(urlencoding(" a  b "), "%20a%20%20b%20");
    assert_eq!(urlencoding(""), "");
    assert_eq!(bearer_value("my-secret"), "Bearer my-secret");
    assert_eq!(control_base_url(0), "http://127.0.0.1:0");
    assert_eq!(info(Some(vec![]), None).latest_delay(), 0);
}

#[test]
fn best_delay_skips_timeouts_and_keeps_first_tie() {
    let r = vec![
        ("a".to_string(), 0u64),
        ("b".to_string(), 40),
        ("c".to_string(), 12),
        ("d".to_string(), 12),
        ("e".to_string(), 0),
    ];
    assert_eq!(best_delay(&r), Some(("c".to_string(), 12)));
    assert_eq!(best_delay(&vec![("x".to_string(), 0)]), None);
    assert_eq!(best_delay(&vec![]), None);
}

#[test]
fn delay_responses() {
    assert_eq!(delay_from_response(true, Some(33)), 33);
    assert_eq!(delay_from_response(true, None), 0);
    assert_eq!(delay_from_response(false, Some(33)), 0);
    assert_eq!(preview_chars("héllo", 2), "hé");
    assert_eq!(preview_chars("ab", 10), "ab");
}

#[test]
fn reload_tries_payload_then_path_then_fails() {
    let first = first_reload_attempt();
    assert_eq!(first, ReloadAttempt::Payload);
    let step = reload_step(first, ReloadReply::Rejected);
    assert_eq!(step, ReloadStep::Retry(ReloadAttempt::Path));
    assert_eq!(reload_step(ReloadAttempt::Path, ReloadReply::Rejected), ReloadStep::Failed);
}

#[test]
fn reload_stops_on_acceptance_or_unreachable_api() {
    assert_eq!(reload_step(ReloadAttempt::Payload, ReloadReply::Accepted), ReloadStep::Reloaded);
    assert_eq!(reload_step(ReloadAttempt::Path, ReloadReply::Accepted), ReloadStep::Reloaded);
    assert_eq!(reload_step(ReloadAttempt::Payload, ReloadReply::Unreachable), ReloadStep::Unreachable);
    assert_eq!(reload_step(ReloadAttempt::Path, ReloadReply::Unreachable), ReloadStep::Unreachable);
}
