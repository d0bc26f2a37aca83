use ladder_core::mihomo::{unpack_mihomo_download, DownloadError};
use ladder_core::watchdog::{
    pid_alive_from_reply, stop_next, watchdog_step, KillReply, StopAction, WatchdogAction, STOP_PROBES,
};
use std::io::Write;

fn gzip(data: &[u8]) -> Vec<u8> {
    let mut encoder = flate2::write::GzEncoder::new(Vec::new(), flate2::Compression::default());
    encoder.write_all(data).unwrap();
    encoder.finish().unwrap()
}

#[test]
fn download_body_is_decompressed() {
    let packed = gzip(b"\x7fELF mihomo binary");
    assert_ne!(packed, b"\x7fELF mihomo binary".to_vec());
    assert_eq!(unpack_mihomo_download(true, "200 OK", &packed), Ok(b"\x7fELF mihomo binary".to_vec()));
}

#[test]
fn download_failure_status_is_reported() {
    assert_eq!(
        unpack_mihomo_download(false, "404 Not Found", &gzip(b"x")),
        Err(DownloadError::Http("404 Not Found".to_string()))
    );
}

#[test]
fn download_body_that_is_not_gzip_is_refused() {
    assert_eq!(unpack_mihomo_download(true, "200 OK", b"<html>not gzip</html>"), Err(DownloadError::Decompress));
}

#[test]
fn watchdog_stops_proxy_once_shell_is_gone() {
    assert_eq!(watchdog_step(true), WatchdogAction::KeepWatching);
    assert_eq!(watchdog_step(false), WatchdogAction::StopProxy);
}

#[test]
fn stop_ends_when_process_is_gone() {
    assert_eq!(stop_next(0, KillReply::NoSuchProcess), StopAction::Done);
    assert_eq!(stop_next(7, KillReply::NoSuchProcess), StopAction::Done);
    assert_eq!(stop_next(STOP_PROBES, KillReply::NoSuchProcess), StopAction::Done);
}

#[test]
fn stop_probes_thirty_times_then_kills() {
    assert_eq!(STOP_PROBES, 30);
    let mut probes = 0;
    while stop_next(probes, KillReply::Delivered) == StopAction::Probe {
        probes += 1;
    }
    assert_eq!(probes, 30);
    assert_eq!(stop_next(probes, KillReply::Delivered), StopAction::Kill);
    assert_eq!(stop_next(0, KillReply::OtherError), StopAction::Probe);
    assert_eq!(stop_next(30, KillReply::OtherError), StopAction::Kill);
}

#[test]
fn probe_reply_means_alive_unless_no_such_process() {
    assert!(pid_alive_from_reply(KillReply::Delivered));
    assert!(pid_alive_from_reply(KillReply::OtherError));
    assert!(!pid_alive_from_reply(KillReply::NoSuchProcess));
}
