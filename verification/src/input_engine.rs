//! The opt-in input engine. **Off by default.** Holds the self-injection filter and, when
//! enabled, jiggles while the human is idle, standing down the moment they return and reporting
//! when an injection was silently discarded.

use vstd::prelude::*;

use crate::idle::{
    is_our_injection, sane, tick_distance, ticks_between, elapsed, wrapping_abs_diff, IdleTracker,
    TOLERANCE_MS,
};
use crate::power::{last_call_ok, PlatformError};

verus! {

/// A call made on an injector.
pub enum InjectorCall {
    /// `virtual_jiggle()`.
    VirtualJiggle,
    /// `key(vk)`.
    Key(u16),
    /// `move_relative(dx, dy)`.
    Move(i32, i32),
}

/// Synthetic input. Implemented by the platform layer and by test doubles. Whether the OS takes
/// an injection is not known before it is made, so the result carries no promise; what each call
/// does promise is that it is recorded in `calls`, with whether it succeeded.
pub trait InputInjector {
    /// Every call made on this injector so far, oldest first, each with whether it succeeded.
    spec fn calls(&self) -> Seq<(InjectorCall, bool)>;

    /// Reset the idle timer without visibly moving the cursor.
    fn virtual_jiggle(&mut self) -> (r: Result<(), PlatformError>)
        ensures
            final(self).calls() == old(self).calls().push((InjectorCall::VirtualJiggle, r is Ok)),
    ;

    /// Press and release the key with this virtual-key code.
    fn key(&mut self, vk: u16) -> (r: Result<(), PlatformError>)
        ensures
            final(self).calls() == old(self).calls().push((InjectorCall::Key(vk), r is Ok)),
    ;

    /// Move the cursor by a relative amount.
    fn move_relative(&mut self, dx: i32, dy: i32) -> (r: Result<(), PlatformError>)
        ensures
            final(self).calls() == old(self).calls().push((InjectorCall::Move(dx, dy), r is Ok)),
    ;
}

/// The injector for platforms without input synthesis: it sends nothing and never fails.
pub struct NoopInjector {
    calls: Ghost<Seq<(InjectorCall, bool)>>,
}

impl Default for NoopInjector {
    fn default() -> (i: NoopInjector)
        ensures
            i.calls() == Seq::<(InjectorCall, bool)>::empty(),
    {
        NoopInjector { calls: Ghost(Seq::empty()) }
    }
}

impl InputInjector for NoopInjector {
    closed spec fn calls(&self) -> Seq<(InjectorCall, bool)> {
        self.calls@
    }

    fn virtual_jiggle(&mut self) -> (r: Result<(), PlatformError>)
        ensures
            r is Ok,
    {
        proof {
            self.calls@ = self.calls@.push((InjectorCall::VirtualJiggle, true));
        }
        Ok(())
    }

    fn key(&mut self, vk: u16) -> (r: Result<(), PlatformError>)
        ensures
            r is Ok,
    {
        proof {
            self.calls@ = self.calls@.push((InjectorCall::Key(vk), true));
        }
        Ok(())
    }

    fn move_relative(&mut self, dx: i32, dy: i32) -> (r: Result<(), PlatformError>)
        ensures
            r is Ok,
    {
        proof {
            self.calls@ = self.calls@.push((InjectorCall::Move(dx, dy), true));
        }
        Ok(())
    }
}

/// Input synthesis as the platform layer offers it. It promises nothing about its results.
pub trait InputSynthesis {
    /// Reset the idle timer without visibly moving the cursor.
    fn send_jiggle(&self) -> Result<(), PlatformError>;

    /// Press and release the key with this virtual-key code.
    fn send_key(&self, vk: u16) -> Result<(), PlatformError>;

    /// Move the cursor by a relative amount.
    fn send_move(&self, dx: i32, dy: i32) -> Result<(), PlatformError>;
}

/// An injector over platform input synthesis: each injector call is one call of the same kind,
/// recorded with its outcome.
pub struct SynthesisInjector<R: InputSynthesis> {
    raw: R,
    calls: Ghost<Seq<(InjectorCall, bool)>>,
}

impl<R: InputSynthesis> SynthesisInjector<R> {
    pub fn new(raw: R) -> (i: SynthesisInjector<R>)
        ensures
            i.calls() == Seq::<(InjectorCall, bool)>::empty(),
    {
        SynthesisInjector { raw, calls: Ghost(Seq::empty()) }
    }
}

impl<R: InputSynthesis> InputInjector for SynthesisInjector<R> {
    closed spec fn calls(&self) -> Seq<(InjectorCall, bool)> {
        self.calls@
    }

    fn virtual_jiggle(&mut self) -> (r: Result<(), PlatformError>) {
        let r = self.raw.send_jiggle();
        proof {
            self.calls@ = self.calls@.push((InjectorCall::VirtualJiggle, r is Ok));
        }
        r
    }

    fn key(&mut self, vk: u16) -> (r: Result<(), PlatformError>) {
        let r = self.raw.send_key(vk);
        proof {
            self.calls@ = self.calls@.push((InjectorCall::Key(vk), r is Ok));
        }
        r
    }

    fn move_relative(&mut self, dx: i32, dy: i32) -> (r: Result<(), PlatformError>) {
        let r = self.raw.send_move(dx, dy);
        proof {
            self.calls@ = self.calls@.push((InjectorCall::Move(dx, dy), r is Ok));
        }
        r
    }
}

/// The user-settable input-engine knobs. Clamped by `InputEngine::set_settings`.
#[derive(Debug, Clone, Copy, PartialEq, Eq, Structural)]
pub struct InputSettings {
    /// Seconds between jiggles.
    pub interval_secs: u32,
    /// Only jiggle once the human has been idle this long.
    pub idle_threshold_secs: u32,
    /// 0 = virtual jiggle (the default); otherwise a virtual-key code.
    pub key: u16,
}

impl Default for InputSettings {
    fn default() -> (s: InputSettings)
        ensures
            s.interval_secs == 60,
            s.idle_threshold_secs == 60,
            s.key == 0,
    {
        InputSettings { interval_secs: 60, idle_threshold_secs: 60, key: 0 }
    }
}

/// The interval a requested number of seconds becomes: 5 s to 1 h, in milliseconds.
pub open spec fn interval_for(secs: u32) -> u32 {
    ((if secs < 5 { 5 } else if secs > 3_600 { 3_600 } else { secs }) * 1000) as u32
}

/// The idle threshold a requested number of seconds becomes: at most 24 h, in milliseconds.
pub open spec fn threshold_for(secs: u32) -> u32 {
    ((if secs > 86_400 { 86_400 } else { secs }) * 1000) as u32
}

/// Whether a jiggle is due: none yet, or at least `interval` since the last one.
pub open spec fn jiggle_due(last_jiggle: Option<u32>, now: u32, interval: u32) -> bool {
    match last_jiggle {
        Some(t) => ticks_between(now, t) >= interval,
        None => true,
    }
}

/// Whether a pending injection was silently discarded: the OS's last-input tick did not move
/// to (about) the injection.
pub open spec fn discarded(pending: Option<u32>, last_input_tick: u32, blocked: bool) -> bool {
    match pending {
        Some(inj) => tick_distance(last_input_tick, inj) >= TOLERANCE_MS,
        None => blocked,
    }
}

/// The clamped difference of two ticks, either way round.
pub fn abs_diff(a: u32, b: u32) -> (r: u32)
    ensures
        r == tick_distance(a, b),
{
    wrapping_abs_diff(a, b)
}

/// The injection the engine makes with key setting `key`: a keystroke of that virtual-key code,
/// or a virtual jiggle when it is 0.
pub open spec fn injection_for(key: u16) -> InjectorCall {
    if key != 0 {
        InjectorCall::Key(key)
    } else {
        InjectorCall::VirtualJiggle
    }
}

/// What one tick does, from engine `o` to engine `f`, given the OS's last-input tick and the
/// tick counter `now`. First the previous injection is verified: if the last-input tick did not
/// move to about it, it was discarded and the engine reports itself blocked. Then both idle
/// clocks are updated. When enabled, with the human idle past both the stand-down and the
/// threshold and a jiggle due, the injector gets exactly one call, the one `injection_for` the
/// key setting names. If that call succeeded the injection is dated `now` and awaits
/// verification; if it failed the engine is blocked and nothing is dated. Otherwise the injector
/// is not called and the jiggle bookkeeping stays as it was. The knobs stay in range throughout.
pub open spec fn input_ticked<I: InputInjector>(o: InputEngine<I>, f: InputEngine<I>, last_input_tick: u32, now: u32) -> bool {
    let blocked_after_check = discarded(o.pending(), last_input_tick, o.is_blocked());
    let human_last = if is_our_injection(o.tracker().last_injection(), last_input_tick) {
        o.tracker().human_last()
    } else {
        last_input_tick
    };
    let attempt = o.is_enabled() && f.human_idle() >= o.stand_down()
        && f.human_idle() >= o.threshold() && jiggle_due(o.last_jiggle_at(), now, o.interval());
    let ok = last_call_ok(f.injections());
    &&& o.wf()
    &&& f.wf()
    &&& f.system_idle() == sane(ticks_between(now, last_input_tick))
    &&& f.tracker().human_last() == human_last
    &&& f.human_idle() == sane(ticks_between(now, human_last))
    &&& f.injections() == if attempt {
        o.injections().push((injection_for(o.key_code()), ok))
    } else {
        o.injections()
    }
    &&& attempt && ok ==> {
        &&& f.is_blocked() == blocked_after_check
        &&& f.tracker().last_injection() == Some(now)
        &&& f.last_jiggle_at() == Some(now)
        &&& f.pending() == Some(now)
    }
    &&& attempt && !ok ==> {
        &&& f.is_blocked()
        &&& f.tracker().last_injection() == o.tracker().last_injection()
        &&& f.last_jiggle_at() == o.last_jiggle_at()
        &&& f.pending() is None
    }
    &&& !attempt ==> {
        &&& f.is_blocked() == blocked_after_check
        &&& f.tracker().last_injection() == o.tracker().last_injection()
        &&& f.last_jiggle_at() == o.last_jiggle_at()
        &&& f.pending() is None
    }
    &&& f.is_enabled() == o.is_enabled()
    &&& f.settings_view() == o.settings_view()
    &&& f.interval() == o.interval()
    &&& f.threshold() == o.threshold()
    &&& f.stand_down() == o.stand_down()
}

/// The engine's timing knobs, in milliseconds, always in range: a 2 s stand-down, an interval of
/// whole seconds from 5 s to 1 h and an idle threshold of whole seconds up to 24 h.
struct Knobs {
    interval_ms: u32,
    idle_threshold_ms: u32,
    stand_down_ms: u32,
}

impl Knobs {
    #[verifier::type_invariant]
    spec fn in_range(self) -> bool {
        &&& self.stand_down_ms == 2_000
        &&& 5_000 <= self.interval_ms <= 3_600_000
        &&& self.interval_ms % 1000 == 0
        &&& self.idle_threshold_ms <= 86_400_000
        &&& self.idle_threshold_ms % 1000 == 0
    }
}

pub struct InputEngine<I: InputInjector> {
    injector: I,
    tracker: IdleTracker,
    enabled: bool,
    pub blocked: bool,
    pub system_idle_ms: u32,
    pub human_idle_ms: u32,
    knobs: Knobs,
    /// 0 = virtual jiggle; otherwise a keystroke of this virtual-key code.
    key: u16,
    last_jiggle: Option<u32>,
    pending_verify: Option<u32>,
}

impl<I: InputInjector> InputEngine<I> {
    /// Every call made on the injector, oldest first.
    pub closed spec fn injections(&self) -> Seq<(InjectorCall, bool)> {
        self.injector.calls()
    }

    /// The knobs are in range: a 2 s stand-down, an interval of whole seconds from 5 s to 1 h
    /// and an idle threshold of whole seconds up to 24 h.
    pub open spec fn wf(&self) -> bool {
        &&& self.stand_down() == 2_000
        &&& 5_000 <= self.interval() <= 3_600_000
        &&& self.interval() % 1000 == 0
        &&& self.threshold() <= 86_400_000
        &&& self.threshold() % 1000 == 0
    }

    pub closed spec fn is_enabled(&self) -> bool {
        self.enabled
    }

    pub closed spec fn tracker(&self) -> IdleTracker {
        self.tracker
    }

    pub closed spec fn interval(&self) -> u32 {
        self.knobs.interval_ms
    }

    pub closed spec fn threshold(&self) -> u32 {
        self.knobs.idle_threshold_ms
    }

    pub closed spec fn stand_down(&self) -> u32 {
        self.knobs.stand_down_ms
    }

    pub closed spec fn key_code(&self) -> u16 {
        self.key
    }

    pub closed spec fn last_jiggle_at(&self) -> Option<u32> {
        self.last_jiggle
    }

    pub closed spec fn pending(&self) -> Option<u32> {
        self.pending_verify
    }

    pub closed spec fn is_blocked(&self) -> bool {
        self.blocked
    }

    pub closed spec fn system_idle(&self) -> u32 {
        self.system_idle_ms
    }

    pub closed spec fn human_idle(&self) -> u32 {
        self.human_idle_ms
    }

    /// The knobs as the user sees them, in seconds.
    pub open spec fn settings_view(&self) -> InputSettings {
        InputSettings {
            interval_secs: self.interval() / 1000,
            idle_threshold_secs: self.threshold() / 1000,
            key: self.key_code(),
        }
    }

    /// A disabled engine with the default knobs (60 s interval, 60 s threshold, virtual jiggle),
    /// a 2 s stand-down, and `now` as the last human input.
    pub fn new(injector: I, now: u32) -> (e: InputEngine<I>)
        ensures
            !e.is_enabled(),
            !e.is_blocked(),
            e.system_idle() == 0,
            e.human_idle() == 0,
            e.interval() == 60_000,
            e.threshold() == 60_000,
            e.stand_down() == 2_000,
            e.key_code() == 0,
            e.last_jiggle_at() is None,
            e.pending() is None,
            e.tracker().human_last() == now,
            e.tracker().last_injection() is None,
            e.wf(),
            e.injections() == injector.calls(),
    {
        InputEngine {
            injector,
            tracker: IdleTracker::new(now),
            enabled: false,
            blocked: false,
            system_idle_ms: 0,
            human_idle_ms: 0,
            knobs: Knobs { interval_ms: 60_000, idle_threshold_ms: 60_000, stand_down_ms: 2_000 },
            key: 0,
            last_jiggle: None,
            pending_verify: None,
        }
    }

    /// Switch the engine on or off; switching off clears the blocked flag.
    pub fn set_enabled(&mut self, on: bool)
        ensures
            final(self).is_enabled() == on,
            final(self).is_blocked() == (on && old(self).is_blocked()),
            final(self).settings_view() == old(self).settings_view(),
            final(self).stand_down() == old(self).stand_down(),
            final(self).tracker() == old(self).tracker(),
            final(self).last_jiggle_at() == old(self).last_jiggle_at(),
            final(self).pending() == old(self).pending(),
            final(self).injections() == old(self).injections(),
            final(self).wf(),
    {
        proof {
            use_type_invariant(&self.knobs);
        }
        self.enabled = on;
        if !on {
            self.blocked = false;
        }
    }

    pub fn enabled(&self) -> (r: bool)
        ensures
            r == self.is_enabled(),
    {
        self.enabled
    }

    /// Apply the user-settable knobs, clamped so a bad config cannot produce a runaway
    /// injector: interval 5 s to 1 h, idle threshold 0 to 24 h.
    pub fn set_settings(&mut self, s: InputSettings)
        ensures
            final(self).interval() == interval_for(s.interval_secs),
            final(self).threshold() == threshold_for(s.idle_threshold_secs),
            final(self).key_code() == s.key,
            final(self).is_enabled() == old(self).is_enabled(),
            final(self).is_blocked() == old(self).is_blocked(),
            final(self).stand_down() == old(self).stand_down(),
            final(self).tracker() == old(self).tracker(),
            final(self).last_jiggle_at() == old(self).last_jiggle_at(),
            final(self).pending() == old(self).pending(),
            final(self).injections() == old(self).injections(),
            final(self).wf(),
    {
        proof {
            use_type_invariant(&self.knobs);
        }
        let interval_secs = if s.interval_secs < 5 {
            5
        } else if s.interval_secs > 3_600 {
            3_600
        } else {
            s.interval_secs
        };
        let threshold_secs = if s.idle_threshold_secs > 86_400 { 86_400 } else { s.idle_threshold_secs };
        assert((interval_secs as int * 1000) % 1000 == 0) by (nonlinear_arith);
        assert((threshold_secs as int * 1000) % 1000 == 0) by (nonlinear_arith);
        self.knobs = Knobs {
            interval_ms: interval_secs * 1000,
            idle_threshold_ms: threshold_secs * 1000,
            stand_down_ms: 2_000,
        };
        self.key = s.key;
    }

    /// Whether the last injection was refused or silently discarded.
    pub fn blocked(&self) -> (r: bool)
        ensures
            r == self.is_blocked(),
    {
        self.blocked
    }

    /// Idle time as the OS sees it, after the last tick.
    pub fn system_idle_ms(&self) -> (r: u32)
        ensures
            r == self.system_idle(),
    {
        self.system_idle_ms
    }

    /// Idle time of the human, our own injections filtered out, after the last tick.
    pub fn human_idle_ms(&self) -> (r: u32)
        ensures
            r == self.human_idle(),
    {
        self.human_idle_ms
    }

    /// The knobs in effect, in seconds.
    pub fn settings(&self) -> (s: InputSettings)
        ensures
            s == self.settings_view(),
    {
        InputSettings {
            interval_secs: self.knobs.interval_ms / 1000,
            idle_threshold_secs: self.knobs.idle_threshold_ms / 1000,
            key: self.key,
        }
    }

    /// One tick. `last_input_tick` is the OS's last-input tick and `now` the tick counter; see
    /// `input_ticked`.
    pub fn tick(&mut self, last_input_tick: u32, now: u32)
        ensures
            input_ticked(*old(self), *final(self), last_input_tick, now),
    {
        proof {
            use_type_invariant(&self.knobs);
        }
        if let Some(inj) = self.pending_verify.take() {
            self.blocked = abs_diff(last_input_tick, inj) >= TOLERANCE_MS;
        }
        self.tracker.observe(last_input_tick);
        self.system_idle_ms = self.tracker.system_idle_ms(last_input_tick, now);
        self.human_idle_ms = self.tracker.human_idle_ms(now);

        if !self.enabled {
            return;
        }
        if self.human_idle_ms < self.knobs.stand_down_ms {
            return;
        }
        let due = match self.last_jiggle {
            Some(t) => elapsed(now, t) >= self.knobs.interval_ms,
            None => true,
        };
        if self.human_idle_ms >= self.knobs.idle_threshold_ms && due {
            let res = if self.key != 0 {
                self.injector.key(self.key)
            } else {
                self.injector.virtual_jiggle()
            };
            match res {
                Ok(()) => {
                    self.tracker.note_injection(now);
                    self.last_jiggle = Some(now);
                    self.pending_verify = Some(now);
                },
                Err(_) => {
                    self.blocked = true;
                },
            }
        }
    }
}

/// Settings read back as they were written, clamped: the interval to 5 s .. 1 h and the idle
/// threshold to at most 24 h; settings already within those bounds read back unchanged.
pub proof fn lemma_settings_round_trip(s: InputSettings)
    ensures
        interval_for(s.interval_secs) / 1000 == if s.interval_secs < 5 {
            5
        } else if s.interval_secs > 3_600 {
            3_600
        } else {
            s.interval_secs
        },
        threshold_for(s.idle_threshold_secs) / 1000 == if s.idle_threshold_secs > 86_400 {
            86_400
        } else {
            s.idle_threshold_secs
        },
        5 <= s.interval_secs <= 3_600 && s.idle_threshold_secs <= 86_400 ==> (InputSettings {
            interval_secs: interval_for(s.interval_secs) / 1000,
            idle_threshold_secs: threshold_for(s.idle_threshold_secs) / 1000,
            key: s.key,
        }) == s,
{
    let i: u32 = if s.interval_secs < 5 { 5 } else if s.interval_secs > 3_600 { 3_600 } else { s.interval_secs };
    let t: u32 = if s.idle_threshold_secs > 86_400 { 86_400 } else { s.idle_threshold_secs };
    assert((i * 1000) as u32 / 1000 == i) by (nonlinear_arith)
        requires
            i <= 3_600,
    ;
    assert((t * 1000) as u32 / 1000 == t) by (nonlinear_arith)
        requires
            t <= 86_400,
    ;
}

/// One tick in the settings' own terms: with `ms` the engine's settings, an injection is due
/// exactly when the engine is enabled, the human has been idle at least the 2 s stand-down and
/// `ms.idle_threshold_secs` seconds, and `ms.interval_secs` seconds have passed since the last
/// jiggle that succeeded (or there was none). A due tick makes exactly one injector call,
/// `key(ms.key)` when a key is set and a virtual jiggle otherwise. If that call succeeded the
/// jiggle is dated `now`; if it failed the engine is blocked and the last jiggle keeps its date.
/// A tick with nothing due makes no call and keeps the jiggle bookkeeping.
pub proof fn lemma_tick_in_settings_terms<I: InputInjector>(
    o: InputEngine<I>,
    f: InputEngine<I>,
    last_input_tick: u32,
    now: u32,
)
    requires
        input_ticked(o, f, last_input_tick, now),
    ensures
        ({
            let ms = o.settings_view();
            let due = o.is_enabled() && f.human_idle() >= 2_000 && f.human_idle() >= ms.idle_threshold_secs * 1000
                && match o.last_jiggle_at() {
                Some(t) => ticks_between(now, t) >= ms.interval_secs * 1000,
                None => true,
            };
            let call = if ms.key != 0 { InjectorCall::Key(ms.key) } else { InjectorCall::VirtualJiggle };
            let ok = last_call_ok(f.injections());
            &&& due ==> f.injections() == o.injections().push((call, ok))
            &&& due && ok ==> f.last_jiggle_at() == Some(now) && f.pending() == Some(now)
            &&& due && !ok ==> f.is_blocked() && f.last_jiggle_at() == o.last_jiggle_at()
            &&& !due ==> f.injections() == o.injections() && f.last_jiggle_at() == o.last_jiggle_at()
                && f.pending() is None && f.is_blocked() == discarded(o.pending(), last_input_tick, o.is_blocked())
        }),
{
    let i = o.interval();
    let t = o.threshold();
    assert((i / 1000) * 1000 == i) by (nonlinear_arith)
        requires
            i % 1000 == 0,
    ;
    assert((t / 1000) * 1000 == t) by (nonlinear_arith)
        requires
            t % 1000 == 0,
    ;
}

/// The blocked flag changes only on evidence. A tick that has no injection awaiting
/// verification and makes no injector call leaves the flag as it was; a tick that verifies an
/// injection and makes no call sets it exactly when the OS's last-input tick is at least the
/// tolerance away from that injection, either way round the tick counter.
pub proof fn lemma_blocked_changes_only_on_evidence<I: InputInjector>(
    o: InputEngine<I>,
    f: InputEngine<I>,
    last_input_tick: u32,
    now: u32,
)
    requires
        input_ticked(o, f, last_input_tick, now),
        f.injections().len() == o.injections().len(),
    ensures
        o.pending() is None ==> f.is_blocked() == o.is_blocked(),
        o.pending() matches Some(inj) ==> f.is_blocked() == ({
            let d = if last_input_tick >= inj { last_input_tick - inj } else { inj - last_input_tick };
            let gap = if d > 0x8000_0000 { 0x1_0000_0000 - d } else { d };
            gap >= TOLERANCE_MS
        }),
        f.pending() is None,
{
}

/// The engine is off by default and, while off, never injects: a tick of a disabled engine makes
/// no injector call and leaves the jiggle bookkeeping as it was.
pub proof fn lemma_disabled_never_injects<I: InputInjector>(
    o: InputEngine<I>,
    f: InputEngine<I>,
    last_input_tick: u32,
    now: u32,
)
    requires
        input_ticked(o, f, last_input_tick, now),
        !o.is_enabled(),
    ensures
        f.injections() == o.injections(),
        f.last_jiggle_at() == o.last_jiggle_at(),
        f.tracker().last_injection() == o.tracker().last_injection(),
        f.pending() is None,
        !f.is_enabled(),
{
}

/// Two ticks of a disabled engine make no injector call at all.
pub proof fn lemma_disabled_twice_never_injects<I: InputInjector>(
    e0: InputEngine<I>,
    e1: InputEngine<I>,
    e2: InputEngine<I>,
    l1: u32,
    n1: u32,
    l2: u32,
    n2: u32,
)
    requires
        !e0.is_enabled(),
        input_ticked(e0, e1, l1, n1),
        input_ticked(e1, e2, l2, n2),
    ensures
        e2.injections() == e0.injections(),
{
}

/// While the human is active (idle for less than the stand-down, or less than the threshold)
/// a tick makes no injector call, whatever else holds.
pub proof fn lemma_active_human_is_never_interrupted<I: InputInjector>(
    o: InputEngine<I>,
    f: InputEngine<I>,
    last_input_tick: u32,
    now: u32,
)
    requires
        input_ticked(o, f, last_input_tick, now),
        f.human_idle() < o.stand_down() || f.human_idle() < o.threshold(),
    ensures
        f.injections() == o.injections(),
        f.last_jiggle_at() == o.last_jiggle_at(),
        f.tracker().last_injection() == o.tracker().last_injection(),
        f.pending() is None,
{
}

} // verus!
