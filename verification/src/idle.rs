//! Two idle clocks and the self-injection filter. Pure: fed 32-bit millisecond ticks from the
//! OS tick counter, compared with wrapping arithmetic because that counter wraps every ~49 days
//! and the last-input tick is not monotonic.

use vstd::prelude::*;

verus! {

/// An observed input this close to our own injection was ours.
pub const TOLERANCE_MS: u32 = 250;

/// Idle readings above a week are nonsense (a tick from the future, wrapped) and read as 0.
pub const SANITY_MAX_MS: u32 = 604_800_000;

/// Milliseconds from tick `from` forward to tick `to` on the wrapping 32-bit tick counter.
pub open spec fn ticks_between(to: u32, from: u32) -> u32 {
    ((to - from) % 0x1_0000_0000) as u32
}

/// The shorter way round the tick counter between two ticks.
pub open spec fn tick_distance(a: u32, b: u32) -> u32 {
    let x = ticks_between(a, b);
    let y = ticks_between(b, a);
    if x <= y { x } else { y }
}

/// An idle reading, with anything above a week read as 0.
pub open spec fn sane(ms: u32) -> u32 {
    if ms > SANITY_MAX_MS { 0 } else { ms }
}

/// Whether an observed last-input tick lines up with our recent injection.
pub open spec fn is_our_injection(injected_at: Option<u32>, observed: u32) -> bool {
    match injected_at {
        Some(t) => tick_distance(observed, t) < TOLERANCE_MS,
        None => false,
    }
}

/// `to - from` on the wrapping tick counter.
pub fn elapsed(to: u32, from: u32) -> (r: u32)
    ensures
        r == ticks_between(to, from),
{
    to.wrapping_sub(from)
}

/// The shorter way round the tick counter between two ticks.
pub fn wrapping_abs_diff(a: u32, b: u32) -> (r: u32)
    ensures
        r == tick_distance(a, b),
{
    let x = elapsed(a, b);
    let y = elapsed(b, a);
    if x <= y { x } else { y }
}

/// An idle reading, with anything above a week read as 0.
pub fn clamp(ms: u32) -> (r: u32)
    ensures
        r == sane(ms),
{
    if ms > SANITY_MAX_MS { 0 } else { ms }
}

pub struct IdleTracker {
    /// Tick of the last input believed to be human (our injections filtered out).
    human_last_input: u32,
    /// Tick of our most recent injection.
    injected_at: Option<u32>,
}

impl IdleTracker {
    /// Tick of the last input believed to be human.
    pub closed spec fn human_last(&self) -> u32 {
        self.human_last_input
    }

    /// Tick of our most recent injection, if any.
    pub closed spec fn last_injection(&self) -> Option<u32> {
        self.injected_at
    }

    /// A tracker that takes `now` as the last human input and has injected nothing.
    pub fn new(now: u32) -> (t: IdleTracker)
        ensures
            t.human_last() == now,
            t.last_injection() is None,
    {
        IdleTracker { human_last_input: now, injected_at: None }
    }

    /// Record that we injected input at `now`.
    pub fn note_injection(&mut self, now: u32)
        ensures
            final(self).last_injection() == Some(now),
            final(self).human_last() == old(self).human_last(),
    {
        self.injected_at = Some(now);
    }

    /// Observe the OS's last-input tick. If it lines up with our recent injection it was us, and
    /// the human clock is left alone; otherwise a real human moved.
    pub fn observe(&mut self, system_last_input: u32)
        ensures
            final(self).last_injection() == old(self).last_injection(),
            is_our_injection(old(self).last_injection(), system_last_input)
                ==> final(self).human_last() == old(self).human_last(),
            !is_our_injection(old(self).last_injection(), system_last_input)
                ==> final(self).human_last() == system_last_input,
    {
        let is_ours = match self.injected_at {
            Some(t) => wrapping_abs_diff(system_last_input, t) < TOLERANCE_MS,
            None => false,
        };
        if !is_ours {
            self.human_last_input = system_last_input;
        }
    }

    /// Idle as the OS, presence and the screensaver see it (includes our injections).
    pub fn system_idle_ms(&self, system_last_input: u32, now: u32) -> (r: u32)
        ensures
            r == sane(ticks_between(now, system_last_input)),
    {
        clamp(elapsed(now, system_last_input))
    }

    /// Idle as the *human* actually behaved (our injections filtered out).
    pub fn human_idle_ms(&self, now: u32) -> (r: u32)
        ensures
            r == sane(ticks_between(now, self.human_last())),
    {
        clamp(elapsed(now, self.human_last_input))
    }
}

/// Real input resets the human clock: after observing an input that is not ours, the human idle
/// time at that very tick is zero.
pub proof fn lemma_real_input_resets_human_clock(observed: u32)
    ensures
        sane(ticks_between(observed, observed)) == 0,
{
}

/// The distance between two ticks is the same either way round, and zero from a tick to itself.
pub proof fn lemma_tick_distance_symmetric(a: u32, b: u32)
    ensures
        tick_distance(a, b) == tick_distance(b, a),
        tick_distance(a, a) == 0,
{
}

} // verus!
