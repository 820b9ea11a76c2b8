//! "Why is my PC awake?": the pure reduction of the machine-wide execution state.
//!
//! An unelevated process cannot name the holder of a power request; what it can read is the
//! aggregate execution state. Our own request is deliberately **not** subtracted from that
//! aggregate (whether it shows up there could not be verified, and subtracting on that guess
//! would hide a genuine third-party request whenever we held the same kind). So the aggregate is
//! reported exactly as the OS gives it, and our own state is reported beside it.

use vstd::prelude::*;

use crate::modes::WakeMode;

verus! {

/// Execution-state bits.
pub const ES_SYSTEM_REQUIRED: u32 = 0x0000_0001;
pub const ES_DISPLAY_REQUIRED: u32 = 0x0000_0002;
pub const ES_AWAYMODE_REQUIRED: u32 = 0x0000_0040;

#[derive(Debug, Clone, Copy, PartialEq, Eq, Structural)]
pub struct AwakeReport {
    /// `false` when the OS refused the read: the reader must then say so rather than render a
    /// confident "nothing is held".
    pub readable: bool,
    pub system_held: bool,
    pub display_held: bool,
    pub away_mode_held: bool,
    /// What *we* hold, reported alongside the aggregate, never folded into it.
    pub ours: WakeMode,
}

/// The report for an aggregate (`None` when the read was refused) and our own mode.
pub open spec fn report_of(aggregate: Option<u32>, ours: WakeMode) -> AwakeReport {
    let es: u32 = match aggregate {
        Some(v) => v,
        None => 0,
    };
    AwakeReport {
        readable: aggregate is Some,
        system_held: es & ES_SYSTEM_REQUIRED != 0,
        display_held: es & ES_DISPLAY_REQUIRED != 0,
        away_mode_held: es & ES_AWAYMODE_REQUIRED != 0,
        ours,
    }
}

/// `aggregate` is the machine-wide execution state, or `None` if the OS refused the read.
pub fn report(aggregate: Option<u32>, ours: WakeMode) -> (r: AwakeReport)
    ensures
        r == report_of(aggregate, ours),
{
    let es = match aggregate {
        Some(v) => v,
        None => 0,
    };
    let system_held = es & ES_SYSTEM_REQUIRED != 0;
    let display_held = es & ES_DISPLAY_REQUIRED != 0;
    AwakeReport {
        readable: aggregate.is_some(),
        system_held,
        display_held,
        away_mode_held: es & ES_AWAYMODE_REQUIRED != 0,
        ours,
    }
}

/// What we hold never changes what is reported of the aggregate, and is carried through
/// unchanged.
pub proof fn lemma_ours_never_alters_aggregate(aggregate: Option<u32>, a: WakeMode, b: WakeMode)
    ensures
        report_of(aggregate, a).readable == report_of(aggregate, b).readable,
        report_of(aggregate, a).system_held == report_of(aggregate, b).system_held,
        report_of(aggregate, a).display_held == report_of(aggregate, b).display_held,
        report_of(aggregate, a).away_mode_held == report_of(aggregate, b).away_mode_held,
        report_of(aggregate, a).ours == a,
{
}

/// Each flag of a readable aggregate reads its own bit and nothing else: system is bit 0x1,
/// display bit 0x2 and away mode bit 0x40, and two aggregates that agree on a flag's bit report
/// that flag alike, whatever their other bits.
pub proof fn lemma_each_flag_reads_its_own_bit(v: u32, w: u32, ours: WakeMode)
    ensures
        report_of(Some(v), ours).readable,
        report_of(Some(v), ours).system_held == (v & 0x1 != 0),
        report_of(Some(v), ours).display_held == (v & 0x2 != 0),
        report_of(Some(v), ours).away_mode_held == (v & 0x40 != 0),
        v & 0x1 == w & 0x1 ==> report_of(Some(v), ours).system_held == report_of(Some(w), ours).system_held,
        v & 0x2 == w & 0x2 ==> report_of(Some(v), ours).display_held == report_of(Some(w), ours).display_held,
        v & 0x40 == w & 0x40 ==> report_of(Some(v), ours).away_mode_held == report_of(Some(w), ours).away_mode_held,
{
}

/// A refused read is flagged as unreadable and is never rendered as anything held.
pub proof fn lemma_refused_read_holds_nothing(ours: WakeMode)
    ensures
        !report_of(None, ours).readable,
        !report_of(None, ours).system_held,
        !report_of(None, ours).display_held,
        !report_of(None, ours).away_mode_held,
{
    assert(0u32 & 1u32 == 0) by (bit_vector);
    assert(0u32 & 2u32 == 0) by (bit_vector);
    assert(0u32 & 0x40u32 == 0) by (bit_vector);
}

} // verus!
