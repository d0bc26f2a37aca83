use ladder_core::cli::{display_name_from_url, rc_file_path, shell_name_from_path};
use ladder_core::watchdog::WatchdogConfig;

#[test]
fn sub_add_default_name() {
    assert_eq!(display_name_from_url("https://a.com/x/WestWorld.yaml?token=1"), "WestWorld.yaml");
    assert_eq!(display_name_from_url("https://a.com/"), "");
    assert_eq!(display_name_from_url("plain"), "plain");
}

#[test]
fn shell_rc_files() {
    assert_eq!(shell_name_from_path("/bin/zsh"), "zsh");
    assert_eq!(rc_file_path("zsh", "/h", false), "/h/.zshrc");
    assert_eq!(rc_file_path("bash", "/h", true), "/h/.bash_profile");
    assert_eq!(rc_file_path("bash", "/h", false), "/h/.bashrc");
}

#[test]
fn watchdog_polls_every_two_seconds() {
    let w = WatchdogConfig::new(10, 20);
    assert_eq!(w.shell_pid, 10);
    assert_eq!(w.mihomo_pid, 20);
    assert_eq!(w.interval, std::time::Duration::from_secs(2));
}
