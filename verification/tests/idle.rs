use project_mouse::idle::{clamp, wrapping_abs_diff, IdleTracker};

#[test]
fn human_clock_rises_while_we_jiggle() {
    // Human last moved at t=0 and then went away.
    let mut t = IdleTracker::new(0);
    // 3 minutes later the app notices the human is idle and injects.
    t.observe(0); // no injection yet -> human_last = 0
    assert_eq!(t.human_idle_ms(180_000), 180_000);
    t.note_injection(180_000);
    // Half a second later: the OS's last-input tick is our injection (180_000).
    t.observe(180_000);
    // System sees recent activity (our jiggle); the human clock keeps rising.
    assert_eq!(t.system_idle_ms(180_000, 180_500), 500);
    assert_eq!(t.human_idle_ms(180_500), 180_500);
}

#[test]
fn real_input_resets_the_human_clock() {
    let mut t = IdleTracker::new(0);
    t.note_injection(180_000);
    t.observe(180_000); // ours
    assert_eq!(t.human_idle_ms(180_500), 180_500);
    // Real user moves at 181_000, well outside the injection tolerance.
    t.observe(181_000);
    assert_eq!(t.human_idle_ms(181_000), 0); // stand-down: human is back
}

#[test]
fn injection_within_tolerance_is_ours() {
    let mut t = IdleTracker::new(0);
    t.note_injection(1000);
    t.observe(1100); // 100ms after our injection -> still us
    assert_eq!(t.human_idle_ms(1100), 1100); // human clock unaffected
}

#[test]
fn nonsense_idle_is_clamped_to_zero() {
    let t = IdleTracker::new(0);
    // system_last_input in the future relative to now -> wrapped huge value -> clamp to 0.
    assert_eq!(t.system_idle_ms(1000, 0), 0);
}

#[test]
fn idle_survives_the_tick_counter_wrapping() {
    let t = IdleTracker::new(u32::MAX - 99);
    assert_eq!(t.human_idle_ms(400), 500);
    assert_eq!(t.system_idle_ms(u32::MAX, 9), 10);
}

#[test]
fn tolerance_is_measured_the_short_way_round() {
    assert_eq!(wrapping_abs_diff(5, u32::MAX - 4), 10);
    assert_eq!(wrapping_abs_diff(u32::MAX - 4, 5), 10);
    let mut t = IdleTracker::new(0);
    t.note_injection(u32::MAX - 100);
    t.observe(50); // 151 ms after the injection, across the wrap: ours
    assert_eq!(t.human_idle_ms(1000), 1000);
    t.observe(400); // 501 ms after: a human
    assert_eq!(t.human_idle_ms(1000), 600);
}

#[test]
fn exactly_the_tolerance_is_not_ours() {
    let mut t = IdleTracker::new(0);
    t.note_injection(1000);
    t.observe(1250);
    assert_eq!(t.human_idle_ms(1250), 0);
}

#[test]
fn a_week_is_the_sanity_limit() {
    assert_eq!(clamp(604_800_000), 604_800_000);
    assert_eq!(clamp(604_800_001), 0);
}
