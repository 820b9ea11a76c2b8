use project_mouse::platform::{
    utc_clock,
    exe_name, local_time_from, notification_state_from, power_status_from, process_list_stale, snapshot_from,
    wide_len, Capabilities,
};
use project_mouse::rule::NotifState;

#[test]
fn a_snapshot_is_locked_when_nobody_is_present() {
    let s = snapshot_from(10, 2, 600, vec!["a.exe".into()], None, NotifState::NotPresent, false, 40, true);
    assert!(s.session_locked);
    assert_eq!((s.epoch_secs, s.weekday, s.minutes, s.battery_pct), (10, 2, 600, 40));
    assert!(s.remote_session && !s.on_ac);
    let s = snapshot_from(10, 2, 600, vec![], Some("x.exe".into()), NotifState::Presentation, true, 40, false);
    assert!(!s.session_locked);
}

#[test]
fn the_process_list_refreshes_on_its_cadence() {
    assert!(process_list_stale(None, 5_000));
    assert!(!process_list_stale(Some(4_999), 5_000));
    assert!(process_list_stale(Some(5_000), 5_000));
}

#[test]
fn unknown_power_readings_read_as_plugged_in() {
    assert_eq!(power_status_from(None), (true, 100));
    assert_eq!(power_status_from(Some((0, 42))), (false, 42));
    assert_eq!(power_status_from(Some((255, 255))), (true, 100));
}

#[test]
fn the_week_starts_on_monday() {
    assert_eq!(local_time_from(0, 23, 59), (6, 1439));
    assert_eq!(local_time_from(1, 0, 0), (0, 0));
    assert_eq!(local_time_from(6, 12, 30), (5, 750));
}

#[test]
fn notification_states_map_one_to_one() {
    assert_eq!(notification_state_from(None), NotifState::Normal);
    assert_eq!(notification_state_from(Some(1)), NotifState::NotPresent);
    assert_eq!(notification_state_from(Some(2)), NotifState::Busy);
    assert_eq!(notification_state_from(Some(3)), NotifState::Game);
    assert_eq!(notification_state_from(Some(4)), NotifState::Presentation);
    assert_eq!(notification_state_from(Some(5)), NotifState::Normal);
    assert_eq!(notification_state_from(Some(6)), NotifState::QuietTime);
    assert_eq!(notification_state_from(Some(7)), NotifState::App);
    assert_eq!(notification_state_from(Some(42)), NotifState::Normal);
}

#[test]
fn exe_names_come_after_the_last_separator() {
    assert_eq!(exe_name("C:\\Program Files\\App/bin\\app.exe"), "app.exe");
    assert_eq!(exe_name("app.exe"), "app.exe");
    assert_eq!(exe_name("C:/dir/"), "");
}

#[test]
fn wide_strings_stop_at_the_terminator() {
    assert_eq!(wide_len(&[65, 66, 0, 67]), 2);
    assert_eq!(wide_len(&[65, 66]), 2);
    assert_eq!(wide_len(&[]), 0);
}

#[test]
fn only_windows_holds_anything() {
    let c = Capabilities::for_platform(true);
    assert!(c.can_prevent_system_sleep && c.can_prevent_display_sleep && !c.can_autostart);
    let c = Capabilities::for_platform(false);
    assert!(!c.can_prevent_system_sleep && !c.can_prevent_display_sleep && !c.can_autostart);
}

#[test]
fn the_utc_clock_reads_a_unix_time() {
    // 1970-01-01 00:00 was a Thursday.
    assert_eq!(utc_clock(0), (4, 0, 0));
    // 2024-01-01 13:37:59 UTC was a Monday.
    assert_eq!(utc_clock(1_704_116_279), (1, 13, 37));
    assert_eq!(utc_clock(u64::MAX).0 < 7, true);
}
