use std::sync::{Arc, Mutex};

use project_mouse::engine::Engine;
use project_mouse::modes::WakeMode::{self, Off, KeepRunning, KeepPresenting};
use project_mouse::power::{PlatformError, PowerRequests, SharedGuard};
use project_mouse::rule::{Condition, Profile, Rule};
use project_mouse::snapshot::Snapshot;

#[derive(Clone, Default)]
struct Recorder {
    calls: Arc<Mutex<Vec<String>>>,
}

impl PowerRequests for Recorder {
    fn request(&self, display: bool, _reason: &str) -> Result<(), PlatformError> {
        self.calls.lock().unwrap().push(format!("set({display})"));
        Ok(())
    }
    fn release_request(&self) -> Result<(), PlatformError> {
        self.calls.lock().unwrap().push("clear".into());
        Ok(())
    }
}

fn rule(id: &str, mode: WakeMode, conditions: Vec<Condition>) -> Rule {
    Rule { id: id.into(), name: id.into(), enabled: true, conditions, mode }
}

#[test]
fn a_new_engine_holds_nothing_under_the_default_profile() {
    let e = Engine::new(SharedGuard::new(Arc::new(Recorder::default())));
    assert_eq!(e.mode(), Off);
    assert_eq!(e.manual(), Off);
    assert!(!e.paused());
    assert_eq!(e.profile_name(), "Default");
    assert_eq!(e.profile().id, "default");
}

#[test]
fn desired_is_the_stronger_of_manual_and_rules() {
    let rec = Recorder::default();
    let mut e = Engine::new(SharedGuard::new(Arc::new(rec.clone())));
    let mut p = Profile::new("p", "P");
    p.rules.push(rule("r", KeepRunning, vec![]));
    e.set_profile(p);
    e.tick(&Snapshot::default());
    assert_eq!(e.mode(), KeepRunning);
    e.set_manual(KeepPresenting);
    e.tick(&Snapshot::default());
    assert_eq!(e.mode(), KeepPresenting);
    e.set_manual(Off);
    e.tick(&Snapshot::default());
    assert_eq!(e.mode(), KeepRunning, "a weaker manual mode never lowers a rule");
}

#[test]
fn pausing_suppresses_everything() {
    let rec = Recorder::default();
    let mut e = Engine::new(SharedGuard::new(Arc::new(rec.clone())));
    e.set_manual(KeepPresenting);
    e.tick(&Snapshot::default());
    e.set_paused(true);
    e.tick(&Snapshot::default());
    assert_eq!(e.mode(), Off);
    assert_eq!(*rec.calls.lock().unwrap(), vec!["set(true)".to_string(), "clear".to_string()]);
}

#[test]
fn identical_ticks_are_a_no_op() {
    let rec = Recorder::default();
    let mut e = Engine::new(SharedGuard::new(Arc::new(rec.clone())));
    e.set_manual(KeepRunning);
    for _ in 0..5 {
        e.tick(&Snapshot::default());
    }
    assert_eq!(rec.calls.lock().unwrap().len(), 1);
}

#[test]
fn release_returns_everything_to_off() {
    let rec = Recorder::default();
    let mut e = Engine::new(SharedGuard::new(Arc::new(rec.clone())));
    e.set_manual(KeepRunning);
    e.tick(&Snapshot::default());
    e.release();
    assert_eq!(e.mode(), Off);
    assert_eq!(e.manual(), Off);
    assert_eq!(rec.calls.lock().unwrap().last().unwrap(), "clear");
}

#[test]
fn rules_are_upserted_deleted_and_switched_by_id() {
    let mut e = Engine::new(SharedGuard::new(Arc::new(Recorder::default())));
    e.upsert_rule(rule("a", KeepRunning, vec![]));
    e.upsert_rule(rule("b", KeepRunning, vec![]));
    e.upsert_rule(rule("a", KeepPresenting, vec![Condition::OnACPower]));
    assert_eq!(e.profile().rules.len(), 2);
    assert_eq!(e.profile().rules[0].mode, KeepPresenting);

    e.set_rule_enabled("b", false);
    assert!(!e.profile().rules[1].enabled);
    e.set_rule_enabled("nope", false);
    assert!(e.profile().rules[0].enabled);

    e.delete_rule("a");
    assert_eq!(e.profile().rules.len(), 1);
    assert_eq!(e.profile().rules[0].id, "b");
    e.delete_rule("nope");
    assert_eq!(e.profile().rules.len(), 1);
}

#[derive(Clone, Default)]
struct Refusing;

impl PowerRequests for Refusing {
    fn request(&self, _display: bool, _reason: &str) -> Result<(), PlatformError> {
        Err(PlatformError("refused".into()))
    }
    fn release_request(&self) -> Result<(), PlatformError> {
        Err(PlatformError("refused".into()))
    }
}

#[test]
fn a_refused_request_is_not_reported_as_held() {
    let mut e = Engine::new(SharedGuard::new(Arc::new(Refusing)));
    e.set_manual(KeepRunning);
    e.tick(&Snapshot::default());
    assert_eq!(e.mode(), Off, "the guard refused, so nothing is held");
    assert_eq!(e.manual(), KeepRunning);
}

#[test]
fn release_clears_once_even_with_nothing_held() {
    let rec = Recorder::default();
    let mut e = Engine::new(SharedGuard::new(Arc::new(rec.clone())));
    e.release();
    assert_eq!(*rec.calls.lock().unwrap(), vec!["clear".to_string()]);
    e.tick(&Snapshot::default());
    assert_eq!(rec.calls.lock().unwrap().len(), 1, "Off is already held: no call");
}
