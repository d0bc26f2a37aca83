use ladder_core::env::{EnvVars, RuntimeState};

#[test]
fn test_export_statements() {
    let env = EnvVars::new(7890, 7891);
    let out = env.export_statements(Some(1234));
    assert!(out.contains("export LADDER_SHELL_PID=1234"));
    assert!(out.contains("export HTTP_PROXY=\"http://127.0.0.1:7890\""));
    assert!(out.contains("export ALL_PROXY=\"socks5://127.0.0.1:7891\""));
    assert!(out.contains("export no_proxy="));
}

#[test]
fn test_unset_statements() {
    let out = EnvVars::unset_statements();
    assert!(out.contains("unset HTTP_PROXY"));
    assert!(out.contains("unset LADDER_SHELL_PID"));
}

#[test]
fn test_export_without_pid() {
    let env = EnvVars::new(7890, 7891);
    let out = env.export_statements(None);
    assert!(!out.contains("LADDER_SHELL_PID"));
}

#[test]
fn export_text_is_exact() {
    let env = EnvVars::new(0, 65535);
    assert_eq!(env.http_proxy, "http://127.0.0.1:0");
    assert_eq!(env.socks_proxy, "socks5://127.0.0.1:65535");
    assert_eq!(env.no_proxy, "localhost,127.0.0.1,::1");
    let out = env.export_statements(Some(7));
    let lines: Vec<&str> = out.lines().collect();
    assert_eq!(lines.len(), 9);
    assert_eq!(lines[0], "export LADDER_SHELL_PID=7");
    assert_eq!(lines[2], "export HTTPS_PROXY=\"http://127.0.0.1:0\"");
    assert_eq!(lines[8], "export no_proxy=\"localhost,127.0.0.1,::1\"");
}

#[test]
fn unset_clears_every_exported_variable() {
    let env = EnvVars::new(1, 2);
    let unset = EnvVars::unset_statements();
    let unset_names: Vec<&str> = unset.lines().flat_map(|l| l.split(' ').skip(1)).collect();
    for line in env.export_statements(Some(3)).lines() {
        let name = line.trim_start_matches("export ").split('=').next().unwrap();
        assert!(unset_names.contains(&name), "{} not unset", name);
    }
    assert_eq!(unset, "unset HTTP_PROXY HTTPS_PROXY ALL_PROXY\nunset http_proxy https_proxy all_proxy\nunset NO_PROXY no_proxy\nunset LADDER_SHELL_PID");
}

#[test]
fn state_path_joins_cache_dir() {
    assert_eq!(RuntimeState::state_path("/home/u/.cache/ladder"), "/home/u/.cache/ladder/state.json");
    assert_eq!(RuntimeState::state_path("/tmp/"), "/tmp/state.json");
    assert_eq!(RuntimeState::state_path(""), "state.json");
    let s = RuntimeState::default();
    assert!(!s.running);
    assert_eq!(s.http_port, 0);
}

#[test]
fn export_with_pid_is_pid_line_then_plain_export() {
    let env = EnvVars::new(7890, 7891);
    let plain = env.export_statements(None);
    assert_eq!(env.export_statements(Some(4242)), format!("export LADDER_SHELL_PID=4242\n{}", plain));
    assert_eq!(plain.lines().count(), 8);
    assert!(!plain.ends_with('\n'));
}
