use project_mouse::config::Config;
use project_mouse::engine::Engine;
use project_mouse::input_engine::{InputEngine, InputSettings, NoopInjector};
use project_mouse::modes::WakeMode;
use project_mouse::power::{NoopPowerGuard, PowerGuard};
use project_mouse::rule::Profile;
use project_mouse::startup::apply_startup;

fn engine() -> Engine<NoopPowerGuard> {
    Engine::new(NoopPowerGuard::default())
}

fn stored_config() -> Config {
    let mut c = Config::with_mode(WakeMode::KeepPresenting);
    c.profiles.push(Profile::new("a", "A"));
    c.profiles.push(Profile::new("b", "B"));
    c.active_profile = "b".into();
    c.input_enabled = true;
    c.input = InputSettings { interval_secs: 30, idle_threshold_secs: 90, key: 0 };
    c
}

#[test]
fn a_loaded_config_restores_mode_profile_and_input() {
    let mut e = engine();
    let s = apply_startup(&mut e, Ok(stored_config()), None, None);
    assert_eq!(e.manual(), WakeMode::KeepPresenting);
    assert_eq!(e.profile().id, "b");
    assert!(s.save_enabled);
    assert!(s.input_enabled);
    assert_eq!(s.input.interval_secs, 30);
    let ids: Vec<&str> = s.stored.iter().map(|p| p.id.as_str()).collect();
    assert_eq!(ids, vec!["a", "b"]);
}

#[test]
fn a_failed_load_starts_off_and_disables_saving() {
    let mut e = engine();
    e.set_manual(WakeMode::KeepRunning);
    let s = apply_startup(&mut e, Err("corrupt".into()), None, None);
    assert_eq!(e.manual(), WakeMode::Off);
    assert!(!s.save_enabled);
    assert!(!s.input_enabled);
    assert_eq!(s.input, InputSettings::default());
    assert_eq!(s.stored.len(), 1);
    assert_eq!(s.stored[0].id, "default");
}

#[test]
fn the_command_line_overrides_mode_and_profile() {
    let mut e = engine();
    let s = apply_startup(&mut e, Ok(stored_config()), Some(WakeMode::Off), Some(Profile::new("cli", "CLI")));
    assert_eq!(e.manual(), WakeMode::Off);
    assert_eq!(e.profile().id, "cli");
    let ids: Vec<&str> = s.stored.iter().map(|p| p.id.as_str()).collect();
    assert_eq!(ids, vec!["a", "b", "cli"]);
}

#[test]
fn an_unknown_active_profile_keeps_the_engines_own() {
    let mut e = engine();
    let mut c = stored_config();
    c.active_profile = "gone".into();
    let s = apply_startup(&mut e, Ok(c), None, None);
    assert_eq!(e.profile().id, "default");
    assert_eq!(s.stored.len(), 3);
}

#[test]
fn the_noop_backends_never_fail() {
    let mut g = NoopPowerGuard::default();
    assert!(g.set(true, "x").is_ok());
    assert!(g.clear().is_ok());
    let mut ie = InputEngine::new(NoopInjector::default(), 0);
    ie.set_enabled(true);
    ie.tick(0, 3_600_000);
    assert!(!ie.blocked);
}
