use project_mouse::modes::WakeMode::{Off, KeepRunning, KeepPresenting};
use project_mouse::rule::Condition;
use project_mouse::shell::{
    fmt_remaining, forwarded_commands, hotkey_next, keep_mode_from_args, menu_action, mode_from_cli,
    next_check_delay_secs, profile_from_args, profile_menu_items, tooltip_for, tooltip_text, tray_tooltip,
    update_step, Forwarded, MenuAction, UpdateCheck, UpdateStep,
};
use project_mouse::rule::Profile;

fn args(v: &[&str]) -> Vec<String> {
    v.iter().map(|s| s.to_string()).collect()
}

#[test]
fn remaining_time_reads_in_the_largest_unit() {
    assert_eq!(fmt_remaining(0), "0s");
    assert_eq!(fmt_remaining(59), "59s");
    assert_eq!(fmt_remaining(60), "1m");
    assert_eq!(fmt_remaining(3599), "59m");
    assert_eq!(fmt_remaining(3600), "1h 0m");
    assert_eq!(fmt_remaining(7_384), "2h 3m");
}

#[test]
fn the_tooltip_carries_the_countdown_and_an_update() {
    assert_eq!(tooltip_for(Off), "project-mouse — not holding anything");
    assert_eq!(tooltip_text(Off, None, None), "project-mouse — not holding anything");
    assert_eq!(
        tooltip_text(KeepRunning, Some(90), None),
        "project-mouse — keeping awake (screen may sleep) — 1m left"
    );
    assert_eq!(
        tooltip_text(KeepPresenting, None, Some("1.2.3")),
        "project-mouse — keeping the display on\nUpdate 1.2.3 available — tray → Check for updates"
    );
    assert_eq!(
        tray_tooltip(true, KeepRunning, Some(5), None),
        "project-mouse - input blocked (an elevated window has focus)"
    );
    assert_eq!(tray_tooltip(false, Off, None, None), tooltip_text(Off, None, None));
}

#[test]
fn cli_modes_ignore_case() {
    assert_eq!(mode_from_cli("off"), Some(Off));
    assert_eq!(mode_from_cli("Running"), Some(KeepRunning));
    assert_eq!(mode_from_cli("KEEP_RUNNING"), Some(KeepRunning));
    assert_eq!(mode_from_cli("presenting"), Some(KeepPresenting));
    assert_eq!(mode_from_cli("keep_Presenting"), Some(KeepPresenting));
    assert_eq!(mode_from_cli("on"), None);
}

#[test]
fn the_first_keep_flag_wins() {
    assert_eq!(keep_mode_from_args(&args(&["pm", "--keep", "presenting", "--keep", "off"])), Some(KeepPresenting));
    assert_eq!(keep_mode_from_args(&args(&["pm", "--keep", "bogus", "--keep", "off"])), None);
    assert_eq!(keep_mode_from_args(&args(&["pm", "--keep"])), None);
    assert_eq!(keep_mode_from_args(&args(&["pm"])), None);
}

#[test]
fn while_process_flags_make_a_profile() {
    assert!(profile_from_args(&args(&["pm", "--show"])).is_none());
    let p = profile_from_args(&args(&["pm", "--while-process", "msbuild.exe", "--while-process", "cl.exe"])).unwrap();
    assert_eq!(p.id, "cli");
    assert_eq!(p.name, "CLI");
    assert_eq!(p.rules.len(), 1);
    assert_eq!(p.rules[0].id, "cli-while-process");
    assert_eq!(p.rules[0].name, "Keep running while msbuild.exe, cl.exe");
    assert!(p.rules[0].enabled);
    assert_eq!(p.rules[0].mode, KeepRunning);
    assert_eq!(
        p.rules[0].conditions,
        vec![Condition::ProcessRunning(vec!["msbuild.exe".into(), "cl.exe".into()])]
    );
    // A flag always takes the next argument, even another flag.
    let p = profile_from_args(&args(&["--while-process", "--while-process", "x"])).unwrap();
    assert_eq!(p.rules[0].name, "Keep running while --while-process");
}

#[test]
fn forwarded_flags_become_commands() {
    assert_eq!(
        forwarded_commands(&args(&["pm", "--show", "--keep", "running", "--release", "--keep", "nope", "--keep"])),
        vec![Forwarded::Show, Forwarded::Keep(KeepRunning), Forwarded::Release]
    );
    assert!(forwarded_commands(&args(&["pm", "--keep", "--show"])).is_empty());
}

#[test]
fn menu_ids_map_to_actions() {
    assert!(matches!(menu_action("off"), MenuAction::Manual(Off)));
    assert!(matches!(menu_action("keep_running"), MenuAction::Manual(KeepRunning)));
    assert!(matches!(menu_action("keep_presenting"), MenuAction::Manual(KeepPresenting)));
    assert!(matches!(menu_action("autostart"), MenuAction::ToggleAutostart));
    assert!(matches!(menu_action("check_update"), MenuAction::CheckUpdate));
    assert!(matches!(menu_action("quit"), MenuAction::Quit));
    match menu_action("profile:work") {
        MenuAction::SwitchProfile(id) => assert_eq!(id, "work"),
        other => panic!("unexpected {other:?}"),
    }
    match menu_action("profile:") {
        MenuAction::SwitchProfile(id) => assert_eq!(id, ""),
        other => panic!("unexpected {other:?}"),
    }
    assert!(matches!(menu_action("profile"), MenuAction::Ignore));
    assert!(matches!(menu_action("Off"), MenuAction::Ignore));
}

#[test]
fn the_hotkey_toggles_between_off_and_running() {
    assert_eq!(hotkey_next(Off), KeepRunning);
    assert_eq!(hotkey_next(KeepRunning), Off);
    assert_eq!(hotkey_next(KeepPresenting), Off);
}

#[test]
fn the_profile_menu_checks_the_engines_profile() {
    let stored = vec![Profile::new("a", "Alpha"), Profile::new("b", "Beta")];
    let items = profile_menu_items(&stored, "b");
    assert_eq!(items.len(), 2);
    assert_eq!(items[0].item_id, "profile:a");
    assert_eq!(items[0].label, "Alpha");
    assert!(!items[0].checked);
    assert_eq!(items[1].item_id, "profile:b");
    assert!(items[1].checked);
    assert!(profile_menu_items(&Vec::new(), "a").is_empty());
}

#[test]
fn a_profile_item_switches_to_its_profile() {
    let stored = vec![Profile::new("quit", "Q")];
    let items = profile_menu_items(&stored, "");
    match menu_action(&items[0].item_id) {
        MenuAction::SwitchProfile(id) => assert_eq!(id, "quit"),
        other => panic!("unexpected {other:?}"),
    }
}

#[test]
fn background_checks_record_and_manual_checks_install() {
    assert!(matches!(update_step(true, UpdateCheck::Found("1.2.0".into())), UpdateStep::Record(v) if v == "1.2.0"));
    assert!(matches!(update_step(false, UpdateCheck::Found("1.2.0".into())), UpdateStep::Install(v) if v == "1.2.0"));
    assert!(matches!(update_step(true, UpdateCheck::UpToDate), UpdateStep::Clear));
    assert!(matches!(update_step(false, UpdateCheck::UpToDate), UpdateStep::Clear));
    assert!(matches!(update_step(true, UpdateCheck::Failed), UpdateStep::Keep));
}

#[test]
fn update_checks_are_six_hours_apart_plus_jitter() {
    assert_eq!(next_check_delay_secs(0), 21_600);
    assert_eq!(next_check_delay_secs(1_799), 23_399);
    assert_eq!(next_check_delay_secs(1_800), 21_600);
    assert_eq!(next_check_delay_secs(u32::MAX), 21_600 + (u32::MAX % 1_800) as u64);
}
