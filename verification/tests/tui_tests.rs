use ladder_core::api::{HistoryEntry, ProxyInfo};
use ladder_core::config::{LadderConfig, Subscription};
use ladder_core::env::RuntimeState;
use ladder_core::mihomo::SubscriptionUpdateReport;
use ladder_core::nodes::{
    auto_best_group, build_node_list, current_node_of, is_group_type, is_reserved_proxy,
    main_group_name,
};
use ladder_core::tui::{
    delay_display, mode_indicator, status_bar_text, App, AppMode, BgMessage, DelayLevel, Key,
    KeyAction, NodeEntry, TabFilter,
};

fn proxy(name: &str, ty: &str, all: Option<Vec<&str>>, delay: Option<u64>, provider: &str) -> (String, ProxyInfo) {
    (
        name.to_string(),
        ProxyInfo {
            name: name.to_string(),
            proxy_type: ty.to_string(),
            now: all.as_ref().map(|a| a[0].to_string()),
            all: all.map(|a| a.iter().map(|s| s.to_string()).collect()),
            history: delay.map(|d| vec![HistoryEntry { time: "t".to_string(), delay: d }]),
            alive: Some(true),
            provider_name: Some(provider.to_string()),
        },
    )
}

fn cfg(names: &[&str]) -> LadderConfig {
    let mut c = LadderConfig::default();
    for n in names {
        c.add_subscription(Subscription { name: n.to_string(), url: "u".to_string(), interval: 1 });
    }
    c
}

fn running_state() -> RuntimeState {
    let mut s = RuntimeState::default();
    s.running = true;
    s
}

fn node(name: &str, sub: &str) -> NodeEntry {
    NodeEntry { name: name.to_string(), delay: 0, is_current: false, subscription: sub.to_string() }
}

#[test]
fn tab_labels() {
    assert_eq!(TabFilter::All.label(), "全部");
    assert_eq!(TabFilter::Sub("机场A".to_string()).label(), "机场A");
}

#[test]
fn new_app_has_one_tab_per_subscription() {
    let app = App::new(cfg(&["A", "B"]), running_state());
    assert_eq!(app.tabs.len(), 3);
    assert!(matches!(app.tabs[0], TabFilter::All));
    assert!(matches!(&app.tabs[2], TabFilter::Sub(n) if n == "B"));
    assert!(app.has_api);
    assert_eq!(app.mode, AppMode::Normal);
}

#[test]
fn provider_mode_node_list() {
    let t = vec![
        proxy("A", "Selector", Some(vec!["n1", "n2"]), None, ""),
        proxy("n1", "Trojan", None, Some(45), "A"),
        proxy("PROXY", "Selector", Some(vec!["n1", "n2"]), None, ""),
    ];
    let nodes = build_node_list(&t, &cfg(&["A", "B"]));
    assert_eq!(nodes.len(), 2);
    assert_eq!(nodes[0].name, "n1");
    assert_eq!(nodes[0].delay, 45);
    assert_eq!(nodes[1].delay, 0);
    assert_eq!(nodes[1].subscription, "A");
}

#[test]
fn full_config_node_list_skips_groups_and_builtins() {
    let t = vec![
        proxy("auto", "URLTest", Some(vec!["hk"]), None, ""),
        proxy("🔰 节点选择", "Selector", Some(vec!["auto", "DIRECT", "hk", "jp"]), None, ""),
        proxy("hk", "Trojan", None, Some(30), "West"),
        proxy("jp", "Trojan", None, None, ""),
    ];
    let nodes = build_node_list(&t, &cfg(&["Sub1"]));
    let names: Vec<&str> = nodes.iter().map(|n| n.name.as_str()).collect();
    assert_eq!(names, vec!["hk", "jp"]);
    assert_eq!(nodes[0].subscription, "West");
    assert_eq!(nodes[1].subscription, "Sub1");
    assert_eq!(build_node_list(&t, &cfg(&[]))[1].subscription, "default");
    assert_eq!(main_group_name(&t), Some("🔰 节点选择".to_string()));
    assert_eq!(current_node_of(&t), Some("auto".to_string()));
}

#[test]
fn main_group_falls_back_to_first_selector() {
    let t = vec![
        proxy("x", "Trojan", None, None, ""),
        proxy("G1", "selector", Some(vec!["x"]), None, ""),
        proxy("G2", "Selector", Some(vec!["x"]), None, ""),
    ];
    assert_eq!(main_group_name(&t), Some("G1".to_string()));
    assert_eq!(auto_best_group(&vec![]), "PROXY");
    assert!(is_group_type("load-BALANCE"));
    assert!(!is_group_type("Trojan"));
    assert!(is_reserved_proxy("REJECT-DROP"));
    assert!(!is_reserved_proxy("direct"));
}

#[test]
fn navigation_and_keys() {
    let mut app = App::new(cfg(&["A"]), running_state());
    app.nodes = vec![node("n1", "A"), node("n2", "B"), node("n3", "A")];
    assert_eq!(app.visible_nodes().len(), 3);
    assert_eq!(app.handle_key(Key::Down), KeyAction::Nothing);
    assert_eq!(app.handle_key(Key::Char('j')), KeyAction::Nothing);
    assert_eq!(app.handle_key(Key::Down), KeyAction::Nothing);
    assert_eq!(app.cursor, 2);
    app.handle_key(Key::Tab);
    assert_eq!(app.active_tab, 1);
    assert_eq!(app.cursor, 0);
    assert_eq!(app.visible_nodes().len(), 2);
    app.handle_key(Key::Right);
    assert_eq!(app.active_tab, 0);
    app.handle_key(Key::BackTab);
    assert_eq!(app.active_tab, 1);
    app.handle_key(Key::Up);
    assert_eq!(app.cursor, 0);
    assert_eq!(app.selected_node_name(), Some("n1".to_string()));
    assert_eq!(app.handle_key(Key::Enter), KeyAction::Select);
    assert_eq!(app.handle_key(Key::Char('T')), KeyAction::SpeedTest);
    assert_eq!(app.handle_key(Key::Char('a')), KeyAction::AutoBest);
    assert_eq!(app.handle_key(Key::Char('u')), KeyAction::UpdateProviders);
    assert_eq!(app.handle_key(Key::Char('r')), KeyAction::Refresh);
    assert_eq!(app.handle_key(Key::Char('q')), KeyAction::Nothing);
    assert!(app.should_quit);
}

#[test]
fn busy_picker_only_cancels_and_navigates() {
    let mut app = App::new(cfg(&[]), running_state());
    app.nodes = vec![node("n1", "A")];
    app.begin_auto_best();
    assert_eq!(app.mode, AppMode::AutoBest);
    assert_eq!(app.handle_key(Key::Enter), KeyAction::Nothing);
    assert_eq!(app.handle_key(Key::Esc), KeyAction::Cancel);
    assert!(!app.should_quit);
    assert_eq!(app.handle_key(Key::Char('Q')), KeyAction::Cancel);
    assert!(app.should_quit);
    app.cancel_current();
    assert_eq!(app.mode, AppMode::Normal);
    assert_eq!(app.status_msg.as_deref(), Some("⚠ 操作已取消"));
}

#[test]
fn speed_test_progress_and_results() {
    let mut app = App::new(cfg(&[]), running_state());
    app.nodes = vec![node("n1", "A"), node("n2", "A")];
    let names = app.begin_speed_test();
    assert_eq!(names, vec!["n1".to_string(), "n2".to_string()]);
    assert_eq!(app.test_progress, Some((0, 2)));
    assert_eq!(app.status_msg.as_deref(), Some("测速中... (0/2)"));
    let out = app.apply_bg_message(BgMessage::DelayResult("n2".to_string(), 88));
    assert!(!out.refresh && !out.clear_cancel);
    assert_eq!(app.nodes[1].delay, 88);
    assert_eq!(app.test_progress, Some((1, 2)));
    app.apply_bg_message(BgMessage::DelayResult("n1".to_string(), 5));
    assert_eq!(app.test_progress, None);
    let out = app.apply_bg_message(BgMessage::SpeedTestDone);
    assert!(out.clear_cancel);
    assert_eq!(app.mode, AppMode::Normal);
}

#[test]
fn auto_best_and_update_results() {
    let mut app = App::new(cfg(&[]), running_state());
    app.nodes = vec![node("n1", "A"), node("n2", "A")];
    app.apply_bg_message(BgMessage::AutoBestDone(Ok(("n2".to_string(), 23))));
    assert!(app.nodes[1].is_current && !app.nodes[0].is_current);
    assert_eq!(app.current_node.as_deref(), Some("n2"));
    assert_eq!(app.status_msg.as_deref(), Some("✓ 已切换到最优节点 n2 (23ms)"));
    app.set_status("keep".to_string());
    app.apply_bg_message(BgMessage::AutoBestDone(Err("cancelled".to_string())));
    assert_eq!(app.status_msg.as_deref(), Some("keep"));
    app.apply_bg_message(BgMessage::AutoBestDone(Err("boom".to_string())));
    assert_eq!(app.status_msg.as_deref(), Some("自动选优失败: boom"));
    let reports = vec![
        SubscriptionUpdateReport { name: "a".to_string(), success: true, detail: String::new() },
        SubscriptionUpdateReport { name: "b".to_string(), success: false, detail: String::new() },
    ];
    let out = app.apply_bg_message(BgMessage::UpdateDone(Ok(reports)));
    assert!(out.refresh);
    assert_eq!(app.status_msg.as_deref(), Some("更新完成，1 个成功，1 个失败"));
    app.apply_bg_message(BgMessage::UpdateDone(Ok(vec![])));
    assert_eq!(app.status_msg.as_deref(), Some("✓ 已更新 0 个订阅"));
    let out = app.apply_bg_message(BgMessage::UpdateDone(Err("x".to_string())));
    assert!(!out.refresh);
    assert_eq!(app.status_msg.as_deref(), Some("更新失败: x"));
}

#[test]
fn refresh_selection_and_status() {
    let mut app = App::new(cfg(&["A"]), running_state());
    let t = vec![
        proxy("A", "Selector", Some(vec!["n1", "n2"]), None, ""),
        proxy("PROXY", "Selector", Some(vec!["n2", "n1"]), None, ""),
    ];
    app.apply_refresh(&t);
    assert_eq!(app.nodes.len(), 2);
    assert_eq!(app.current_node.as_deref(), Some("n2"));
    assert!(app.nodes[1].is_current);
    app.apply_selection("n1".to_string(), Ok(()));
    assert!(app.nodes[0].is_current && !app.nodes[1].is_current);
    assert_eq!(status_bar_text(&app), "✓ 已切换到 n1");
    app.apply_selection("n2".to_string(), Err("HTTP 500".to_string()));
    assert_eq!(app.status_msg.as_deref(), Some("切换失败: HTTP 500"));
    assert_eq!(app.tick_status(true), true);
    assert_eq!(status_bar_text(&app), "当前节点: n1");
    app.refresh_failed("down");
    assert_eq!(app.status_msg.as_deref(), Some("Refresh error: down"));
    app.begin_update();
    assert!(!app.tick_status(true));
}

#[test]
fn delay_cells() {
    assert_eq!(delay_display(0), ("timeout".to_string(), DelayLevel::Bad));
    assert_eq!(delay_display(99), ("99ms".to_string(), DelayLevel::Good));
    assert_eq!(delay_display(100), ("100ms".to_string(), DelayLevel::Fair));
    assert_eq!(delay_display(300), ("300ms".to_string(), DelayLevel::Bad));
    assert_eq!(mode_indicator(AppMode::Testing), "  [测速中...]");
    assert_eq!(mode_indicator(AppMode::Normal), "");
}
