use std::sync::{Arc, Mutex};

use project_mouse::input_engine::{InputEngine, InputSettings, InputSynthesis, SynthesisInjector};
use project_mouse::power::PlatformError;

/// Counts injections, so a test can see what the engine did.
#[derive(Clone, Default)]
struct MockInjector {
    jiggles: Arc<Mutex<u32>>,
    keys: Arc<Mutex<Vec<u16>>>,
    attempts: Arc<Mutex<u32>>,
    fail: bool,
}

impl InputSynthesis for MockInjector {
    fn send_jiggle(&self) -> Result<(), PlatformError> {
        *self.attempts.lock().unwrap() += 1;
        if self.fail {
            return Err(PlatformError("blocked".into()));
        }
        *self.jiggles.lock().unwrap() += 1;
        Ok(())
    }
    fn send_key(&self, vk: u16) -> Result<(), PlatformError> {
        *self.attempts.lock().unwrap() += 1;
        if self.fail {
            return Err(PlatformError("blocked".into()));
        }
        *self.jiggles.lock().unwrap() += 1;
        self.keys.lock().unwrap().push(vk);
        Ok(())
    }
    fn send_move(&self, _dx: i32, _dy: i32) -> Result<(), PlatformError> {
        *self.jiggles.lock().unwrap() += 1;
        Ok(())
    }
}

fn engine(m: &MockInjector) -> InputEngine<SynthesisInjector<MockInjector>> {
    InputEngine::new(SynthesisInjector::new(m.clone()), 0)
}

#[test]
fn off_by_default_never_injects() {
    let m = MockInjector::default();
    let mut e = engine(&m);
    e.tick(0, 300_000); // human idle 5 min, but disabled
    assert_eq!(*m.jiggles.lock().unwrap(), 0);
}

#[test]
fn jiggles_when_enabled_and_idle() {
    let m = MockInjector::default();
    let mut e = engine(&m);
    e.set_enabled(true);
    e.tick(0, 300_000);
    assert_eq!(*m.jiggles.lock().unwrap(), 1);
}

#[test]
fn settings_round_trip_and_clamp() {
    let m = MockInjector::default();
    let mut e = engine(&m);
    e.set_settings(InputSettings {
        interval_secs: 1, // below the floor
        idle_threshold_secs: 300,
        key: 0x7E, // VK_F15
    });
    let got = e.settings();
    assert_eq!(got.interval_secs, 5, "interval clamped to the 5 s floor");
    assert_eq!(got.idle_threshold_secs, 300);
    assert_eq!(got.key, 0x7E);
}

#[test]
fn honours_the_idle_threshold() {
    let m = MockInjector::default();
    let mut e = engine(&m);
    e.set_enabled(true);
    e.set_settings(InputSettings {
        interval_secs: 60,
        idle_threshold_secs: 600,
        key: 0,
    });
    e.tick(0, 300_000); // human idle 5 min < the 10 min threshold
    assert_eq!(*m.jiggles.lock().unwrap(), 0);
    e.tick(0, 700_000); // now past it
    assert_eq!(*m.jiggles.lock().unwrap(), 1);
}

#[test]
fn stands_down_when_human_active() {
    let m = MockInjector::default();
    let mut e = engine(&m);
    e.set_enabled(true);
    e.tick(299_000, 300_000); // human idle only 1s (< stand-down)
    assert_eq!(*m.jiggles.lock().unwrap(), 0);
}

#[test]
fn the_upper_clamps_hold() {
    let m = MockInjector::default();
    let mut e = engine(&m);
    e.set_settings(InputSettings { interval_secs: 100_000, idle_threshold_secs: 200_000, key: 0 });
    let got = e.settings();
    assert_eq!(got.interval_secs, 3_600);
    assert_eq!(got.idle_threshold_secs, 86_400);
}

#[test]
fn defaults_are_a_minute_and_a_virtual_jiggle() {
    let d = InputSettings::default();
    assert_eq!((d.interval_secs, d.idle_threshold_secs, d.key), (60, 60, 0));
    let m = MockInjector::default();
    let e = engine(&m);
    assert_eq!(e.settings(), d);
    assert!(!e.enabled());
}

#[test]
fn waits_for_the_interval_between_jiggles() {
    let m = MockInjector::default();
    let mut e = engine(&m);
    e.set_enabled(true);
    e.tick(0, 300_000);
    assert_eq!(*m.jiggles.lock().unwrap(), 1);
    // The OS saw our injection; the human is still away.
    e.tick(300_000, 330_000); // 30 s later: not due
    assert_eq!(*m.jiggles.lock().unwrap(), 1);
    assert!(!e.blocked);
    e.tick(300_000, 360_000); // 60 s later: due
    assert_eq!(*m.jiggles.lock().unwrap(), 2);
}

#[test]
fn a_discarded_injection_is_reported_blocked() {
    let m = MockInjector::default();
    let mut e = engine(&m);
    e.set_enabled(true);
    e.tick(0, 300_000);
    // The OS's last-input tick never moved to our injection.
    e.tick(0, 301_000);
    assert!(e.blocked);
    e.set_enabled(false);
    assert!(!e.blocked);
}

#[test]
fn a_failed_injection_is_reported_blocked() {
    let m = MockInjector { fail: true, ..MockInjector::default() };
    let mut e = engine(&m);
    e.set_enabled(true);
    e.tick(0, 300_000);
    assert!(e.blocked);
    assert_eq!(*m.jiggles.lock().unwrap(), 0);
}

#[test]
fn a_failed_injection_is_not_dated_and_is_retried() {
    let m = MockInjector { fail: true, ..MockInjector::default() };
    let mut e = engine(&m);
    e.set_enabled(true);
    e.tick(0, 300_000);
    assert_eq!(*m.attempts.lock().unwrap(), 1);
    assert!(e.blocked);
    // Nothing was dated, so the next tick tries again without waiting out the interval.
    e.tick(0, 301_000);
    assert_eq!(*m.attempts.lock().unwrap(), 2);
    assert!(e.blocked);
}

#[test]
fn a_successful_injection_is_dated_and_not_reported_blocked() {
    let m = MockInjector::default();
    let mut e = engine(&m);
    e.set_enabled(true);
    e.tick(0, 300_000);
    assert_eq!(*m.attempts.lock().unwrap(), 1);
    assert!(!e.blocked);
    // Dated at 300 000: one second later nothing is due.
    e.tick(300_000, 301_000);
    assert_eq!(*m.attempts.lock().unwrap(), 1);
    assert!(!e.blocked);
}

#[test]
fn a_key_is_pressed_when_one_is_set() {
    let m = MockInjector::default();
    let mut e = engine(&m);
    e.set_enabled(true);
    e.set_settings(InputSettings { interval_secs: 60, idle_threshold_secs: 60, key: 0x7E });
    e.tick(0, 300_000);
    assert_eq!(*m.keys.lock().unwrap(), vec![0x7E]);
}

#[test]
fn idle_clocks_are_published_each_tick() {
    let m = MockInjector::default();
    let mut e = engine(&m);
    e.tick(1_000, 61_000);
    assert_eq!(e.system_idle_ms, 60_000);
    assert_eq!(e.human_idle_ms, 60_000);
}
