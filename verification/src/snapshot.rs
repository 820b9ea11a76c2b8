//! The sampled state a tick evaluates rules against. Plain data: the OS-specific sampling that
//! fills it lives outside the library, so a test just builds a `Snapshot` by hand.

use vstd::prelude::*;

use crate::rule::NotifState;

verus! {

#[derive(Debug, Clone)]
pub struct Snapshot {
    /// Unix seconds, for expiry comparisons.
    pub epoch_secs: u64,
    /// Local weekday, 0 = Monday .. 6 = Sunday.
    pub weekday: u8,
    /// Local minutes-of-day, 0..1440.
    pub minutes: u16,
    /// Executable names currently running.
    pub running_processes: Vec<String>,
    /// Foreground window's executable name, if known.
    pub foreground_exe: Option<String>,
    pub session_locked: bool,
    pub notification_state: NotifState,
    pub on_ac: bool,
    pub battery_pct: u8,
    /// Sampled for conditions that arrive later: remote session, CPU load, idle gating.
    pub remote_session: bool,
    pub cpu_pct: u8,
    pub idle_ms: u64,
}

impl Default for Snapshot {
    /// Midnight Monday of the epoch, nothing running, unlocked, on AC with a full battery.
    fn default() -> (s: Snapshot)
        ensures
            s.epoch_secs == 0,
            s.weekday == 0,
            s.minutes == 0,
            s.running_processes@.len() == 0,
            s.foreground_exe is None,
            !s.session_locked,
            !s.remote_session,
            s.notification_state == NotifState::Normal,
            s.on_ac,
            s.battery_pct == 100,
            s.cpu_pct == 0,
            s.idle_ms == 0,
    {
        Snapshot {
            epoch_secs: 0,
            weekday: 0,
            minutes: 0,
            running_processes: Vec::new(),
            foreground_exe: None,
            session_locked: false,
            remote_session: false,
            notification_state: NotifState::Normal,
            on_ac: true,
            battery_pct: 100,
            cpu_pct: 0,
            idle_ms: 0,
        }
    }
}

} // verus!
