use project_mouse::modes::WakeMode;
use project_mouse::modes::WakeMode::{Off, KeepRunning, KeepPresenting};

#[test]
fn strength_ordering() {
    assert!(Off < KeepRunning);
    assert!(KeepRunning < KeepPresenting);
}

#[test]
fn combine_takes_the_maximum() {
    assert_eq!(WakeMode::combine(&[Off, KeepRunning, KeepPresenting]), KeepPresenting);
    assert_eq!(WakeMode::combine(&[Off, KeepRunning]), KeepRunning);
    assert_eq!(WakeMode::combine(&[Off, Off]), Off);
    assert_eq!(WakeMode::combine(&[]), Off);
}

#[test]
fn only_presenting_keeps_display() {
    assert!(!Off.keeps_display());
    assert!(!KeepRunning.keeps_display());
    assert!(KeepPresenting.keeps_display());
}

#[test]
fn a_weaker_contribution_never_lowers_a_stronger_one() {
    assert_eq!(WakeMode::combine(&[KeepPresenting, Off, KeepRunning]), KeepPresenting);
    assert_eq!(WakeMode::combine(&[KeepRunning, Off]), KeepRunning);
}

#[test]
fn strength_matches_declaration_order() {
    assert_eq!(Off.strength(), 0);
    assert_eq!(KeepRunning.strength(), 1);
    assert_eq!(KeepPresenting.strength(), 2);
    assert_eq!(Off.max_with(KeepRunning), KeepRunning);
    assert_eq!(KeepPresenting.max_with(KeepRunning), KeepPresenting);
}

#[test]
fn reasons_name_each_mode() {
    assert_eq!(Off.reason(), "project-mouse: not holding");
    assert_eq!(
        KeepRunning.reason(),
        "project-mouse: Keep running (system awake, display may sleep)"
    );
    assert_eq!(
        KeepPresenting.reason(),
        "project-mouse: Keep presenting (system awake, display on)"
    );
}

#[test]
fn the_default_mode_is_off() {
    assert_eq!(WakeMode::default(), Off);
}
