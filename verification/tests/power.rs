use std::sync::{Arc, Mutex};

use project_mouse::modes::WakeMode::{Off, KeepRunning, KeepPresenting};
use project_mouse::power::{request_for, PlatformError, PowerReconciler, PowerRequest, PowerRequests, SharedGuard};

#[derive(Default)]
struct Inner {
    calls: Mutex<Vec<String>>,
    display_held: Mutex<Option<bool>>, // None = released; Some(display) = held
    fail: Mutex<bool>,
}

/// Records every `set`/`clear`, and tracks the currently-held display flag.
#[derive(Clone, Default)]
struct MockPowerGuard {
    inner: Arc<Inner>,
}

impl MockPowerGuard {
    fn recorded(&self) -> Vec<String> {
        self.inner.calls.lock().unwrap().clone()
    }
    fn held(&self) -> Option<bool> {
        *self.inner.display_held.lock().unwrap()
    }
    fn fail_next(&self, on: bool) {
        *self.inner.fail.lock().unwrap() = on;
    }
}

impl PowerRequests for MockPowerGuard {
    fn request(&self, display: bool, reason: &str) -> Result<(), PlatformError> {
        if *self.inner.fail.lock().unwrap() {
            return Err(PlatformError("refused".into()));
        }
        self.inner
            .calls
            .lock()
            .unwrap()
            .push(format!("set(display={display}, reason={reason})"));
        *self.inner.display_held.lock().unwrap() = Some(display);
        Ok(())
    }
    fn release_request(&self) -> Result<(), PlatformError> {
        if *self.inner.fail.lock().unwrap() {
            return Err(PlatformError("refused".into()));
        }
        self.inner.calls.lock().unwrap().push("clear".into());
        *self.inner.display_held.lock().unwrap() = None;
        Ok(())
    }
}

#[test]
fn acquires_once_and_is_idempotent() {
    let mock = MockPowerGuard::default();
    let mut rec = PowerReconciler::new(SharedGuard::new(Arc::new(mock.clone())));

    rec.reconcile(KeepRunning).unwrap();
    rec.reconcile(KeepRunning).unwrap();
    rec.reconcile(KeepRunning).unwrap();

    // set called exactly once despite three ticks
    assert_eq!(mock.recorded().len(), 1);
    assert_eq!(mock.held(), Some(false)); // KeepRunning: system+execution, no display
    assert_eq!(rec.current(), KeepRunning);
}

#[test]
fn presenting_holds_display() {
    let mock = MockPowerGuard::default();
    let mut rec = PowerReconciler::new(SharedGuard::new(Arc::new(mock.clone())));
    rec.reconcile(KeepPresenting).unwrap();
    assert_eq!(mock.held(), Some(true));
}

#[test]
fn off_clears_the_request() {
    let mock = MockPowerGuard::default();
    let mut rec = PowerReconciler::new(SharedGuard::new(Arc::new(mock.clone())));
    rec.reconcile(KeepRunning).unwrap();
    rec.reconcile(Off).unwrap();
    assert_eq!(mock.held(), None);
    assert_eq!(rec.current(), Off);
    assert_eq!(
        mock.recorded(),
        vec![
            "set(display=false, reason=project-mouse: Keep running (system awake, display may sleep))".to_string(),
            "clear".to_string()
        ]
    );
}

#[test]
fn switching_modes_re_applies() {
    let mock = MockPowerGuard::default();
    let mut rec = PowerReconciler::new(SharedGuard::new(Arc::new(mock.clone())));
    rec.reconcile(KeepRunning).unwrap();
    rec.reconcile(KeepPresenting).unwrap();
    assert_eq!(mock.held(), Some(true));
    // set, set: two distinct applications
    assert_eq!(mock.recorded().len(), 2);
}

#[test]
fn release_returns_to_off() {
    let mock = MockPowerGuard::default();
    let mut rec = PowerReconciler::new(SharedGuard::new(Arc::new(mock.clone())));
    rec.reconcile(KeepPresenting).unwrap();
    rec.release().unwrap();
    assert_eq!(rec.current(), Off);
    assert_eq!(mock.held(), None);
}

#[test]
fn a_refused_request_leaves_the_held_mode_alone() {
    let mock = MockPowerGuard::default();
    let mut rec = PowerReconciler::new(SharedGuard::new(Arc::new(mock.clone())));
    rec.reconcile(KeepRunning).unwrap();
    mock.fail_next(true);
    assert!(rec.reconcile(KeepPresenting).is_err());
    assert_eq!(rec.current(), KeepRunning);
    assert!(rec.release().is_err());
    assert_eq!(rec.current(), KeepRunning);
    mock.fail_next(false);
    rec.reconcile(KeepPresenting).unwrap();
    assert_eq!(rec.current(), KeepPresenting);
}

#[test]
fn off_to_off_asks_nothing() {
    let mock = MockPowerGuard::default();
    let mut rec = PowerReconciler::new(SharedGuard::new(Arc::new(mock.clone())));
    rec.reconcile(Off).unwrap();
    assert!(mock.recorded().is_empty());
}

#[test]
fn requests_follow_the_mode() {
    assert!(matches!(request_for(KeepRunning, KeepRunning), PowerRequest::Keep));
    assert!(matches!(request_for(KeepRunning, Off), PowerRequest::Clear));
    match request_for(Off, KeepPresenting) {
        PowerRequest::Hold { display, reason } => {
            assert!(display);
            assert_eq!(reason, "project-mouse: Keep presenting (system awake, display on)");
        }
        other => panic!("unexpected {other:?}"),
    }
}
