use std::sync::Arc;

use project_mouse::commands::{
    complete_first_run, config_to_save, delete_profile, diagnostics_for, first_run_profile, log_limit,
    mode_from_str, mode_str, new_profile_id, new_profile_name, profile_summaries, state_view, switch_profile,
};
use project_mouse::config::CURRENT_SCHEMA_VERSION;
use project_mouse::engine::Engine;
use project_mouse::input_engine::InputSettings;
use project_mouse::modes::WakeMode::{Off, KeepRunning, KeepPresenting};
use project_mouse::power::{PlatformError, PowerRequests, SharedGuard};
use project_mouse::rule::{Condition, Profile, Rule};

struct Noop;

impl PowerRequests for Noop {
    fn request(&self, _display: bool, _reason: &str) -> Result<(), PlatformError> {
        Ok(())
    }
    fn release_request(&self) -> Result<(), PlatformError> {
        Ok(())
    }
}

fn profile(id: &str, rules: usize) -> Profile {
    let mut p = Profile::new(id, id);
    for i in 0..rules {
        p.rules.push(Rule {
            id: format!("{id}-{i}"),
            name: "r".into(),
            enabled: true,
            conditions: vec![Condition::OnACPower],
            mode: KeepRunning,
        });
    }
    p
}

#[test]
fn mode_names_round_trip() {
    for m in [Off, KeepRunning, KeepPresenting] {
        assert_eq!(mode_from_str(mode_str(m)), m);
    }
    assert_eq!(mode_str(KeepPresenting), "keep_presenting");
    assert_eq!(mode_from_str("whatever"), Off);
}

#[test]
fn the_state_view_projects_the_engine() {
    let mut e = Engine::new(SharedGuard::new(Arc::new(Noop)));
    e.set_manual(KeepRunning);
    e.set_paused(true);
    let v = state_view(&e);
    assert_eq!(v.effective_mode, "off");
    assert_eq!(v.manual_mode, "keep_running");
    assert!(v.paused);
    assert_eq!(v.profile, "Default");
}

#[test]
fn diagnostics_explain_the_mode() {
    let d = diagnostics_for(KeepPresenting, 61_999, 1_000, false, true, true);
    assert_eq!(d.effective_mode, "keep_presenting");
    assert!(d.system_sleep_blocked && d.display_blocked && d.lock_blocked);
    assert_eq!(d.reason, "Keeping the system awake and the display on.");
    assert_eq!((d.system_idle_secs, d.human_idle_secs), (61, 1));
    assert!(!d.input_blocked, "blocked only counts while input is enabled");
    assert!(d.remote_session);
    let d = diagnostics_for(Off, 0, 0, true, true, false);
    assert!(!d.system_sleep_blocked && !d.display_blocked);
    assert_eq!(d.reason, "Not holding anything.");
    assert!(d.input_blocked);
}

#[test]
fn the_profile_list_includes_unsaved_edits() {
    let stored = vec![profile("work", 1), profile("home", 2)];
    let live = profile("home", 5);
    let rows = profile_summaries(&live, &stored);
    assert_eq!(rows.len(), 2);
    assert_eq!((rows[0].id.as_str(), rows[0].active, rows[0].rule_count), ("work", false, 1));
    assert_eq!((rows[1].id.as_str(), rows[1].active, rows[1].rule_count), ("home", true, 5));
    let rows = profile_summaries(&profile("new", 0), &stored);
    assert_eq!(rows.len(), 3);
    assert!(rows[2].active);
}

#[test]
fn switching_keeps_unsaved_edits_of_the_live_profile() {
    let mut e = Engine::new(SharedGuard::new(Arc::new(Noop)));
    let mut list = vec![profile("default", 0), profile("work", 2)];
    e.upsert_rule(Rule { id: "x".into(), name: "x".into(), enabled: true, conditions: vec![], mode: KeepRunning });
    assert!(switch_profile(&mut e, &mut list, "work"));
    assert_eq!(e.profile().id, "work");
    assert_eq!(list[0].rules.len(), 1, "the edit to default survived the switch");
    assert!(!switch_profile(&mut e, &mut list, "nope"));
    assert_eq!(e.profile().id, "work");
}

#[test]
fn deleting_the_active_profile_loads_the_first_left() {
    let mut e = Engine::new(SharedGuard::new(Arc::new(Noop)));
    let mut list = vec![profile("default", 0), profile("work", 2)];
    assert!(switch_profile(&mut e, &mut list, "work"));
    assert!(delete_profile(&mut e, &mut list, "work").is_ok());
    assert_eq!(e.profile().id, "default");
    assert_eq!(
        delete_profile(&mut e, &mut list, "default").err().unwrap(),
        "that is the last profile — the app must always hold one"
    );
    assert_eq!(list.len(), 1);
}

#[test]
fn new_profiles_get_a_name_and_a_time_id() {
    assert_eq!(new_profile_name("  \t"), "New profile");
    assert_eq!(new_profile_name(""), "New profile");
    assert_eq!(new_profile_name(" Night "), " Night ");
    assert_eq!(new_profile_id(1_700_000_000_123), "p1700000000123");
}

#[test]
fn first_run_answers_make_one_working_profile() {
    let p = first_run_profile("long_job");
    assert_eq!((p.id.as_str(), p.name.as_str()), ("long-job", "Long job"));
    assert_eq!(p.rules.len(), 1);
    assert!(!p.rules[0].enabled);
    assert_eq!(p.rules[0].conditions, vec![Condition::ProcessRunning(vec![])]);
    let p = first_run_profile("keep_screen");
    assert_eq!(p.id, "keep-screen");
    assert!(p.rules[0].enabled);
    assert!(p.rules[0].conditions.is_empty());
    assert_eq!(p.rules[0].mode, KeepPresenting);
    let p = first_run_profile("something else");
    assert_eq!((p.id.as_str(), p.rules.len()), ("default", 0));

    let mut e = Engine::new(SharedGuard::new(Arc::new(Noop)));
    let mut list = vec![profile("default", 3)];
    complete_first_run(&mut e, &mut list, "keep_screen");
    assert_eq!(e.profile().id, "keep-screen");
    assert_eq!(list.len(), 2);
}

#[test]
fn log_requests_are_clamped() {
    assert_eq!(log_limit(0), 1);
    assert_eq!(log_limit(20), 20);
    assert_eq!(log_limit(10_000), 500);
}

#[test]
fn saving_merges_the_live_profile_into_the_collection() {
    let mut stored = vec![profile("work", 1), profile("home", 2), profile("kiosk", 3)];
    let live = profile("home", 7);
    let settings = InputSettings { interval_secs: 30, idle_threshold_secs: 90, key: 0 };
    let c = config_to_save(KeepRunning, &live, &mut stored, true, settings, false);
    assert_eq!(c.schema_version, CURRENT_SCHEMA_VERSION);
    assert_eq!(c.mode, KeepRunning);
    assert_eq!(c.active_profile, "home");
    assert_eq!(c.profiles.len(), 3, "saving one profile never destroys the others");
    assert_eq!(c.profiles[1].rules.len(), 7);
    assert_eq!(c.profiles[2].rules.len(), 3);
    assert!(c.input_enabled);
    assert_eq!(c.input, settings);
    assert!(!c.auto_update);
}
