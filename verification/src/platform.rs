//! The plain-value side of the platform boundary: how raw OS readings become the values the
//! engine reasons about. The OS calls themselves live with the caller.

use vstd::prelude::*;

use crate::rule::NotifState;
use crate::snapshot::Snapshot;

verus! {

/// What the current OS can actually do; the UI asks rather than assumes.
#[derive(Debug, Clone, Copy, PartialEq, Eq, Structural)]
pub struct Capabilities {
    pub can_prevent_system_sleep: bool,
    pub can_prevent_display_sleep: bool,
    pub can_autostart: bool,
}

impl Capabilities {
    /// Windows can hold both the system and the display awake; elsewhere the guards are no-ops.
    /// Launch at login is not offered yet on any platform.
    pub fn for_platform(windows: bool) -> (c: Capabilities)
        ensures
            c.can_prevent_system_sleep == windows,
            c.can_prevent_display_sleep == windows,
            !c.can_autostart,
    {
        Capabilities { can_prevent_system_sleep: windows, can_prevent_display_sleep: windows, can_autostart: false }
    }
}

/// A snapshot from one round of sampling. The session counts as locked exactly when the
/// notification state says nobody is present (locked or screensaver).
pub fn snapshot_from(
    epoch_secs: u64,
    weekday: u8,
    minutes: u16,
    running_processes: Vec<String>,
    foreground_exe: Option<String>,
    notification_state: NotifState,
    on_ac: bool,
    battery_pct: u8,
    remote_session: bool,
) -> (s: Snapshot)
    ensures
        s.epoch_secs == epoch_secs,
        s.weekday == weekday,
        s.minutes == minutes,
        s.running_processes == running_processes,
        s.foreground_exe == foreground_exe,
        s.session_locked == (notification_state == NotifState::NotPresent),
        s.notification_state == notification_state,
        s.on_ac == on_ac,
        s.battery_pct == battery_pct,
        s.remote_session == remote_session,
        s.cpu_pct == 0,
        s.idle_ms == 0,
{
    Snapshot {
        epoch_secs,
        weekday,
        minutes,
        running_processes,
        foreground_exe,
        session_locked: notification_state == NotifState::NotPresent,
        notification_state,
        on_ac,
        battery_pct,
        remote_session,
        cpu_pct: 0,
        idle_ms: 0,
    }
}

/// Whether the cached process list is due for a refresh: never sampled, or sampled at least
/// `interval_ms` ago.
pub fn process_list_stale(since_sampled_ms: Option<u64>, interval_ms: u64) -> (r: bool)
    ensures
        r == match since_sampled_ms {
            Some(t) => t >= interval_ms,
            None => true,
        },
{
    match since_sampled_ms {
        Some(t) => t >= interval_ms,
        None => true,
    }
}

/// AC line and battery from the OS power status (`None` when the read failed, which reads as
/// plugged in and full). The AC line counts as on unless it says battery (0), so an unknown
/// status (usually a desktop) is on; an unknown battery percentage (255) reads as 100.
pub fn power_status_from(status: Option<(u8, u8)>) -> (r: (bool, u8))
    ensures
        r == match status {
            Some((ac, pct)) => (ac != 0, if pct == 255 { 100u8 } else { pct }),
            None => (true, 100u8),
        },
{
    match status {
        Some((ac, pct)) => (ac != 0, if pct == 255 { 100 } else { pct }),
        None => (true, 100),
    }
}

/// The UTC day of week (0 = Sunday), hour and minute of a Unix time; 1970-01-01 was a Thursday.
/// Where the OS gives no local clock, this stands in for it.
pub fn utc_clock(epoch_secs: u64) -> (r: (u16, u16, u16))
    ensures
        r.0 == (epoch_secs / 86_400 + 4) % 7,
        r.1 == (epoch_secs % 86_400) / 3_600,
        r.2 == (epoch_secs % 3_600) / 60,
        r.0 + 6 <= u16::MAX,
        r.1 * 60 + r.2 <= u16::MAX,
{
    let days = epoch_secs / 86_400;
    let in_day = epoch_secs % 86_400;
    assert((epoch_secs % 86_400) % 3_600 == epoch_secs % 3_600) by (nonlinear_arith);
    (((days % 7 + 4) % 7) as u16, (in_day / 3_600) as u16, ((in_day % 3_600) / 60) as u16)
}

/// Local weekday (0 = Monday) and minutes-of-day from the OS clock's day of week
/// (0 = Sunday), hour and minute.
pub fn local_time_from(day_of_week: u16, hour: u16, minute: u16) -> (r: (u8, u16))
    requires
        day_of_week + 6 <= u16::MAX,
        hour * 60 + minute <= u16::MAX,
    ensures
        r.0 == (day_of_week + 6) % 7,
        r.1 == hour * 60 + minute,
{
    (((day_of_week + 6) % 7) as u8, hour * 60 + minute)
}

/// The notification state from the shell's raw user-notification-state value (`None` when
/// the query failed, which reads as normal): 1 not present, 2 busy, 3 a fullscreen Direct3D
/// game, 4 presentation mode, 5 accepting notifications (normal), 6 quiet time, 7 a Store app
/// running full screen; anything else is normal.
pub fn notification_state_from(raw: Option<i32>) -> (s: NotifState)
    ensures
        s == match raw {
            Some(1) => NotifState::NotPresent,
            Some(2) => NotifState::Busy,
            Some(3) => NotifState::Game,
            Some(4) => NotifState::Presentation,
            Some(6) => NotifState::QuietTime,
            Some(7) => NotifState::App,
            _ => NotifState::Normal,
        },
{
    match raw {
        Some(1) => NotifState::NotPresent,
        Some(2) => NotifState::Busy,
        Some(3) => NotifState::Game,
        Some(4) => NotifState::Presentation,
        Some(6) => NotifState::QuietTime,
        Some(7) => NotifState::App,
        _ => NotifState::Normal,
    }
}

/// The last path separator's position in `s`, if any.
pub open spec fn last_separator(s: Seq<char>) -> Option<int> {
    if exists|i: int| 0 <= i < s.len() && (s[i] == '\\' || s[i] == '/') {
        Some(choose|i: int| 0 <= i < s.len() && (s[i] == '\\' || s[i] == '/') && forall|k: int|
            i < k < s.len() ==> !(s[k] == '\\' || s[k] == '/'))
    } else {
        None
    }
}

/// The executable's file name from its full path: what follows the last `\` or `/`.
pub fn exe_name(full: &str) -> (r: &str)
    ensures
        r@ == match last_separator(full@) {
            Some(i) => full@.subrange(i + 1, full@.len() as int),
            None => full@,
        },
{
    let n = full.unicode_len();
    let mut i: usize = n;
    while i > 0 && !(full.get_char(i - 1) == '\\' || full.get_char(i - 1) == '/')
        invariant
            n == full@.len(),
            i <= n,
            forall|k: int| i <= k < n ==> !(full@[k] == '\\' || full@[k] == '/'),
        decreases i,
    {
        i = i - 1;
    }
    proof {
        if i > 0 {
            let j = choose|j: int| 0 <= j < full@.len() && (full@[j] == '\\' || full@[j] == '/') && forall|k: int|
                j < k < full@.len() ==> !(full@[k] == '\\' || full@[k] == '/');
            if j < i - 1 {
                assert(!(full@[i - 1] == '\\' || full@[i - 1] == '/'));
            } else if j > i - 1 {
                assert(!(full@[j] == '\\' || full@[j] == '/'));
            }
        } else {
            assert forall|k: int| 0 <= k < full@.len() implies !(full@[k] == '\\' || full@[k] == '/') by {}
        }
    }
    if i == 0 {
        full
    } else {
        full.substring_char(i, n)
    }
}

/// How many code units of a NUL-terminated wide-character buffer precede the terminator (all
/// of them when there is none).
pub fn wide_len(buf: &[u16]) -> (r: usize)
    ensures
        r <= buf@.len(),
        forall|k: int| 0 <= k < r ==> buf@[k] != 0,
        r < buf@.len() ==> buf@[r as int] == 0,
{
    let mut i: usize = 0;
    while i < buf.len() && buf[i] != 0
        invariant
            i <= buf@.len(),
            forall|k: int| 0 <= k < i ==> buf@[k] != 0,
        decreases buf@.len() - i,
    {
        i = i + 1;
    }
    i
}

} // verus!
