//! Configuration of the watchdog that stops Mihomo once the parent shell exits.

use vstd::prelude::*;

verus! {

/// The `Duration` that `Duration::from_secs(secs)` returns.
pub uninterp spec fn duration_from_secs(secs: nat) -> std::time::Duration;

/// `std::time::Duration::from_secs`; the contract names the result.
#[verifier::external_body]
pub(crate) fn seconds(secs: u64) -> (d: std::time::Duration)
    ensures
        d == duration_from_secs(secs as nat),
{
    std::time::Duration::from_secs(secs)
}

/// What the watchdog watches and whom it stops.
pub struct WatchdogConfig {
    /// PID of the parent shell to monitor.
    pub shell_pid: u32,
    /// PID of the mihomo process to stop when the shell is gone.
    pub mihomo_pid: u32,
    /// Poll interval.
    pub interval: std::time::Duration,
}

impl WatchdogConfig {
    /// Watches `shell_pid` every two seconds on behalf of `mihomo_pid`.
    pub fn new(shell_pid: u32, mihomo_pid: u32) -> (c: Self)
        ensures
            c.shell_pid == shell_pid,
            c.mihomo_pid == mihomo_pid,
            c.interval == duration_from_secs(2),
    {
        WatchdogConfig { shell_pid, mihomo_pid, interval: seconds(2) }
    }
}

/// What the watchdog does after one look at the parent shell.
#[derive(Debug, Clone, Copy, PartialEq, Eq, Structural)]
pub enum WatchdogAction {
    /// The shell is alive: wait one interval and look again.
    KeepWatching,
    /// The shell is gone: stop Mihomo, clear the runtime state and exit.
    StopProxy,
}

/// The watchdog's decision: keep watching while the shell lives.
pub fn watchdog_step(shell_alive: bool) -> (a: WatchdogAction)
    ensures
        a == (if shell_alive {
            WatchdogAction::KeepWatching
        } else {
            WatchdogAction::StopProxy
        }),
{
    if shell_alive {
        WatchdogAction::KeepWatching
    } else {
        WatchdogAction::StopProxy
    }
}

/// How the system answered a signal sent to a process (`kill(2)`).
#[derive(Debug, Clone, Copy, PartialEq, Eq, Structural)]
pub enum KillReply {
    /// The signal was delivered (or, for signal 0, the process exists).
    Delivered,
    /// `ESRCH`: no such process.
    NoSuchProcess,
    /// Any other error.
    OtherError,
}

/// Whether a process answered a probe as existing: anything but "no such
/// process" counts as alive.
pub fn pid_alive_from_reply(reply: KillReply) -> (alive: bool)
    ensures
        alive == (reply != KillReply::NoSuchProcess),
{
    match reply {
        KillReply::NoSuchProcess => false,
        _ => true,
    }
}

/// How many times stopping Mihomo probes for its exit (one probe per 100 ms)
/// before it kills the process.
pub const STOP_PROBES: u32 = 30;

/// The next move in stopping Mihomo.
#[derive(Debug, Clone, Copy, PartialEq, Eq, Structural)]
pub enum StopAction {
    /// Wait 100 ms and probe the process with signal 0.
    Probe,
    /// Send SIGKILL and finish.
    Kill,
    /// The process is gone; finish.
    Done,
}

/// After SIGTERM (`probes == 0`) or the `probes`-th probe got `reply`:
/// finish once the process is gone, otherwise probe again until
/// [`STOP_PROBES`] probes were made, then kill.
pub fn stop_next(probes: u32, reply: KillReply) -> (a: StopAction)
    ensures
        reply == KillReply::NoSuchProcess ==> a == StopAction::Done,
        reply != KillReply::NoSuchProcess && probes < STOP_PROBES ==> a == StopAction::Probe,
        reply != KillReply::NoSuchProcess && probes >= STOP_PROBES ==> a == StopAction::Kill,
{
    match reply {
        KillReply::NoSuchProcess => StopAction::Done,
        _ => if probes < STOP_PROBES {
            StopAction::Probe
        } else {
            StopAction::Kill
        },
    }
}

} // verus!
