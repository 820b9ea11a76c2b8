use project_mouse::evaluator::{desired_mode, rule_holds, soonest_expiry_secs};
use project_mouse::modes::WakeMode;
use project_mouse::modes::WakeMode::{Off, KeepRunning, KeepPresenting};
use project_mouse::rule::Condition::{AllOf, AnyOf, BatteryAbove, ExpiryAt, ForegroundAppIn, ForegroundAppNotIn, Not, NotificationStateIn, OnACPower, ProcessRunning, SessionUnlocked, TimeWindow};
use project_mouse::rule::{Condition, NotifState, Profile, Rule};
use project_mouse::snapshot::Snapshot;

fn snap() -> Snapshot {
    Snapshot::default()
}

fn at(secs: u64) -> Snapshot {
    Snapshot {
        epoch_secs: secs,
        ..Snapshot::default()
    }
}

fn expiring(id: &str, enabled: bool, deadline: u64) -> Rule {
    Rule {
        id: id.into(),
        name: id.into(),
        enabled,
        conditions: vec![ExpiryAt(deadline)],
        mode: KeepRunning,
    }
}

fn rule(mode: WakeMode, conditions: Vec<Condition>) -> Rule {
    Rule {
        id: "r".into(),
        name: "r".into(),
        enabled: true,
        conditions,
        mode,
    }
}

#[test]
fn nothing_counting_down_is_none() {
    let p = Profile::new("p", "p");
    assert_eq!(soonest_expiry_secs(&p, &at(1_000)), None);
}

#[test]
fn a_disabled_timer_does_not_count_down() {
    let mut p = Profile::new("p", "p");
    p.rules.push(expiring("t", false, 1_300));
    assert_eq!(soonest_expiry_secs(&p, &at(1_000)), None);
}

#[test]
fn reports_seconds_remaining() {
    let mut p = Profile::new("p", "p");
    p.rules.push(expiring("t", true, 1_300));
    assert_eq!(soonest_expiry_secs(&p, &at(1_000)), Some(300));
}

#[test]
fn reports_the_soonest_of_several() {
    let mut p = Profile::new("p", "p");
    p.rules.push(expiring("late", true, 5_000));
    p.rules.push(expiring("soon", true, 1_060));
    assert_eq!(soonest_expiry_secs(&p, &at(1_000)), Some(60));
}

/// An elapsed deadline holds nothing, so it must not show a stale or wrapped countdown.
#[test]
fn an_elapsed_deadline_is_none_not_zero_and_never_underflows() {
    let mut p = Profile::new("p", "p");
    p.rules.push(expiring("gone", true, 900));
    assert_eq!(soonest_expiry_secs(&p, &at(1_000)), None);
}

#[test]
fn a_rule_without_an_expiry_is_ignored() {
    let mut p = Profile::new("p", "p");
    p.rules.push(Rule {
        id: "plain".into(),
        name: "plain".into(),
        enabled: true,
        conditions: vec![OnACPower],
        mode: KeepRunning,
    });
    assert_eq!(soonest_expiry_secs(&p, &at(1_000)), None);
}

#[test]
fn process_running_is_case_insensitive() {
    let mut s = snap();
    s.running_processes = vec!["MSBuild.EXE".into()];
    assert!(ProcessRunning(vec!["msbuild.exe".into()]).eval(&s));
    assert!(!ProcessRunning(vec!["chrome.exe".into()]).eval(&s));
}

#[test]
fn time_window_normal() {
    let mut s = snap();
    s.weekday = 2; // Wed
    s.minutes = 10 * 60; // 10:00
    let wd = TimeWindow {
        days: [true, true, true, true, true, false, false],
        from: 8 * 60,
        to: 18 * 60,
    };
    assert!(wd.eval(&s));
    s.minutes = 19 * 60;
    assert!(!wd.eval(&s));
    s.weekday = 5; // Sat: not in days
    s.minutes = 10 * 60;
    assert!(!wd.eval(&s));
}

#[test]
fn time_window_crossing_midnight() {
    // 22:00 Mon -> 06:00 Tue
    let wd = TimeWindow {
        days: [true, false, false, false, false, false, false],
        from: 22 * 60,
        to: 6 * 60,
    };
    let mut s = snap();
    s.weekday = 0; // Mon
    s.minutes = 23 * 60; // 23:00 Mon -> in
    assert!(wd.eval(&s));
    s.weekday = 1; // Tue
    s.minutes = 5 * 60; // 05:00 Tue -> belongs to Mon's window
    assert!(wd.eval(&s));
    s.minutes = 7 * 60; // 07:00 Tue -> out
    assert!(!wd.eval(&s));
}

#[test]
fn expiry_releases_at_deadline() {
    let mut s = snap();
    s.epoch_secs = 100;
    assert!(ExpiryAt(200).eval(&s));
    s.epoch_secs = 200;
    assert!(!ExpiryAt(200).eval(&s));
}

#[test]
fn battery_default_guard_via_composition() {
    // "pause below 20% on battery" == AnyOf[OnACPower, BatteryAbove(20)]
    let guard = AnyOf(vec![OnACPower, BatteryAbove(20)]);
    let mut s = snap();
    s.on_ac = false;
    s.battery_pct = 15;
    assert!(!guard.eval(&s));
    s.battery_pct = 50;
    assert!(guard.eval(&s));
    s.on_ac = true;
    s.battery_pct = 5;
    assert!(guard.eval(&s)); // on AC, low battery is fine
}

#[test]
fn session_and_notification_and_foreground() {
    let mut s = snap();
    s.session_locked = true;
    assert!(!SessionUnlocked.eval(&s));

    s.notification_state = NotifState::Presentation;
    assert!(NotificationStateIn(vec![NotifState::Presentation]).eval(&s));
    assert!(!Not(Box::new(NotificationStateIn(vec![NotifState::Presentation]))).eval(&s));

    s.foreground_exe = Some("Photoshop.exe".into());
    assert!(ForegroundAppIn(vec!["photoshop.exe".into()]).eval(&s));
    assert!(!ForegroundAppNotIn(vec!["photoshop.exe".into()]).eval(&s));
    s.foreground_exe = None;
    assert!(!ForegroundAppIn(vec!["x.exe".into()]).eval(&s));
    assert!(ForegroundAppNotIn(vec!["x.exe".into()]).eval(&s)); // none focused -> not in list
}

#[test]
fn composition() {
    let mut s = snap();
    s.running_processes = vec!["msbuild.exe".into()];
    s.on_ac = true;
    s.notification_state = NotifState::Normal;
    // weekday/time: make an all-day window
    let allday = TimeWindow {
        days: [true; 7],
        from: 0,
        to: 1440,
    };
    let composed = AllOf(vec![
        ProcessRunning(vec!["msbuild.exe".into()]),
        OnACPower,
        allday,
        Not(Box::new(NotificationStateIn(vec![NotifState::Presentation]))),
    ]);
    assert!(composed.eval(&s));
    s.notification_state = NotifState::Presentation;
    assert!(!composed.eval(&s)); // presenting -> stand down
}

#[test]
fn desired_mode_combines_by_maximum() {
    let mut s = snap();
    s.running_processes = vec!["msbuild.exe".into()];
    let mut p = Profile::new("p", "P");
    p.rules.push(rule(KeepRunning, vec![ProcessRunning(vec!["msbuild.exe".into()])]));
    p.rules.push(rule(KeepPresenting, vec![])); // unconditional presenting
    assert_eq!(desired_mode(&p, &s), KeepPresenting); // stronger wins

    // disabled strong rule is ignored
    p.rules[1].enabled = false;
    assert_eq!(desired_mode(&p, &s), KeepRunning);

    // no rule matches -> Off
    s.running_processes.clear();
    assert_eq!(desired_mode(&p, &s), Off);
}

#[test]
fn a_disabled_rule_never_holds() {
    let mut r = rule(KeepPresenting, vec![]);
    assert!(rule_holds(&r, &snap()));
    r.enabled = false;
    assert!(!rule_holds(&r, &snap()));
}

#[test]
fn empty_any_of_is_false_and_empty_all_of_is_true() {
    assert!(!AnyOf(vec![]).eval(&snap()));
    assert!(AllOf(vec![]).eval(&snap()));
}

#[test]
fn case_folding_is_ascii_only() {
    let mut s = snap();
    s.running_processes = vec!["ÉDIT.exe".into()];
    assert!(!ProcessRunning(vec!["édit.exe".into()]).eval(&s));
    assert!(ProcessRunning(vec!["ÉDIT.EXE".into()]).eval(&s));
}

#[test]
fn battery_above_is_inclusive() {
    let mut s = snap();
    s.battery_pct = 20;
    assert!(BatteryAbove(20).eval(&s));
    s.battery_pct = 19;
    assert!(!BatteryAbove(20).eval(&s));
}

#[test]
fn a_window_with_from_equal_to_is_empty() {
    let mut s = snap();
    s.minutes = 600;
    let w = TimeWindow { days: [true; 7], from: 600, to: 600 };
    assert!(!w.eval(&s));
}

#[test]
fn weekday_is_taken_modulo_seven() {
    let mut s = snap();
    s.weekday = 9; // 9 % 7 == 2, Wednesday
    s.minutes = 60;
    let wed = TimeWindow { days: [false, false, true, false, false, false, false], from: 0, to: 120 };
    assert!(wed.eval(&s));
}

#[test]
fn nested_conditions_are_evaluated_recursively() {
    let mut s = snap();
    s.on_ac = false;
    let c = Not(Box::new(AnyOf(vec![OnACPower, AllOf(vec![SessionUnlocked, BatteryAbove(200)])])));
    assert!(c.eval(&s));
    s.on_ac = true;
    assert!(!c.eval(&s));
}

#[test]
fn the_soonest_countdown_spans_every_condition_of_every_enabled_rule() {
    let mut p = Profile::new("p", "p");
    p.rules.push(Rule {
        id: "a".into(),
        name: "a".into(),
        enabled: true,
        conditions: vec![OnACPower, ExpiryAt(1_500), ExpiryAt(1_200)],
        mode: KeepRunning,
    });
    p.rules.push(expiring("b", false, 1_001));
    assert_eq!(soonest_expiry_secs(&p, &at(1_000)), Some(200));
    assert_eq!(soonest_expiry_secs(&p, &at(1_200)), Some(300));
}

#[test]
fn cloned_conditions_evaluate_alike() {
    let c = AllOf(vec![ProcessRunning(vec!["a.exe".into()]), Not(Box::new(OnACPower))]);
    let d = c.clone();
    assert_eq!(c, d);
    let mut s = snap();
    s.running_processes = vec!["A.EXE".into()];
    s.on_ac = false;
    assert_eq!(c.eval(&s), d.eval(&s));
    assert!(d.eval(&s));
}

#[test]
fn a_copied_profile_evaluates_like_the_original() {
    let mut p = Profile::new("p", "P");
    p.rules.push(rule(KeepPresenting, vec![AnyOf(vec![Not(Box::new(OnACPower)), ProcessRunning(vec!["Build.EXE".into()])])]));
    p.rules.push(expiring("e", true, 500));
    let copy = p.clone();
    for s in [
        Snapshot { on_ac: true, ..at(100) },
        Snapshot { on_ac: false, ..at(100) },
        Snapshot { on_ac: true, running_processes: vec!["build.exe".into()], ..at(600) },
    ] {
        assert_eq!(desired_mode(&p, &s), desired_mode(&copy, &s));
        assert_eq!(soonest_expiry_secs(&p, &s), soonest_expiry_secs(&copy, &s));
    }
    assert_eq!(copy, p);
}
