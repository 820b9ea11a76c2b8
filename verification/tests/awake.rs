use project_mouse::awake::{report, ES_AWAYMODE_REQUIRED, ES_DISPLAY_REQUIRED, ES_SYSTEM_REQUIRED};
use project_mouse::modes::WakeMode;

#[test]
fn nothing_held_is_reported_as_nothing_held() {
    let r = report(Some(0), WakeMode::Off);
    assert!(r.readable);
    assert!(!r.system_held && !r.display_held && !r.away_mode_held);
}

#[test]
fn a_refused_read_is_flagged_not_silently_empty() {
    let r = report(None, WakeMode::KeepPresenting);
    assert!(!r.readable, "the UI must be able to say 'we could not read this'");
    assert!(
        !r.system_held && !r.display_held && !r.away_mode_held,
        "an unreadable aggregate must never be rendered as a confident negative"
    );
    assert_eq!(r.ours, WakeMode::KeepPresenting, "our own state is still known");
}

#[test]
fn each_bit_maps_to_its_flag() {
    let r = report(
        Some(ES_SYSTEM_REQUIRED | ES_DISPLAY_REQUIRED | ES_AWAYMODE_REQUIRED),
        WakeMode::Off,
    );
    assert!(r.system_held && r.display_held && r.away_mode_held);

    let r = report(Some(ES_DISPLAY_REQUIRED), WakeMode::Off);
    assert!(r.display_held && !r.system_held && !r.away_mode_held);
}

/// What we hold must never change what we report the OS reporting.
#[test]
fn our_own_request_never_alters_the_reported_aggregate() {
    let agg = Some(ES_SYSTEM_REQUIRED | ES_DISPLAY_REQUIRED);
    let idle = report(agg, WakeMode::Off);
    for mode in [WakeMode::KeepRunning, WakeMode::KeepPresenting] {
        let r = report(agg, mode);
        assert_eq!(r.system_held, idle.system_held, "{mode:?} changed system_held");
        assert_eq!(r.display_held, idle.display_held, "{mode:?} changed display_held");
    }
}

#[test]
fn our_own_mode_is_carried_through_unchanged() {
    for mode in [WakeMode::Off, WakeMode::KeepRunning, WakeMode::KeepPresenting] {
        assert_eq!(report(Some(0), mode).ours, mode);
    }
}

#[test]
fn other_bits_are_ignored() {
    let r = report(Some(0x8000_0000 | 0x4), WakeMode::Off);
    assert!(r.readable && !r.system_held && !r.display_held && !r.away_mode_held);
    let r = report(Some(0x0000_0041), WakeMode::Off);
    assert!(r.system_held && !r.display_held && r.away_mode_held);
}
