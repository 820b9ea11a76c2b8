//! The power engine: desired-vs-actual reconciliation, single owner, idempotent. It holds a
//! *state*, never fires events: asking for the mode already held does nothing.

use std::sync::Arc;

use vstd::prelude::*;

use crate::modes::{reason_text, WakeMode};

verus! {

/// A failure reported by the operating system layer.
#[derive(Debug)]
pub struct PlatformError(pub String);

/// A call made on a power guard.
pub enum GuardCall {
    /// `set(display, reason)`: hold the system awake, and the display iff `display`.
    Hold { display: bool, reason: Seq<char> },
    /// `clear()`.
    Clear,
}

/// Low-level power inhibition. The reconciler is the single owner that decides *when* to call
/// these; the guard only realises the request with the OS. Implemented by the platform layer and
/// by test doubles. Whether the OS grants a call is not known before it is made, so the result
/// carries no promise; what each call does promise is that it is recorded in `calls`, with
/// whether it succeeded.
pub trait PowerGuard {
    /// Every call made on this guard so far, oldest first, each with whether it succeeded.
    spec fn calls(&self) -> Seq<(GuardCall, bool)>;

    /// Hold system + execution required, and display required iff `display`, with `reason`
    /// visible to the OS's request audit. Replaces any request already held.
    fn set(&mut self, display: bool, reason: &str) -> (r: Result<(), PlatformError>)
        ensures
            final(self).calls() == old(self).calls().push((GuardCall::Hold { display, reason: reason@ }, r is Ok)),
    ;

    /// Release everything held. Safe to call when nothing is held.
    fn clear(&mut self) -> (r: Result<(), PlatformError>)
        ensures
            final(self).calls() == old(self).calls().push((GuardCall::Clear, r is Ok)),
    ;
}

/// The guard for platforms without a power-request API: it holds nothing and never fails.
pub struct NoopPowerGuard {
    calls: Ghost<Seq<(GuardCall, bool)>>,
}

impl Default for NoopPowerGuard {
    fn default() -> (g: NoopPowerGuard)
        ensures
            g.calls() == Seq::<(GuardCall, bool)>::empty(),
    {
        NoopPowerGuard { calls: Ghost(Seq::empty()) }
    }
}

impl PowerGuard for NoopPowerGuard {
    closed spec fn calls(&self) -> Seq<(GuardCall, bool)> {
        self.calls@
    }

    fn set(&mut self, display: bool, reason: &str) -> (r: Result<(), PlatformError>)
        ensures
            r is Ok,
    {
        proof {
            self.calls@ = self.calls@.push((GuardCall::Hold { display, reason: reason@ }, true));
        }
        Ok(())
    }

    fn clear(&mut self) -> (r: Result<(), PlatformError>)
        ensures
            r is Ok,
    {
        proof {
            self.calls@ = self.calls@.push((GuardCall::Clear, true));
        }
        Ok(())
    }
}

/// The OS power request as the platform layer offers it, shared so that a panic hook can
/// release it too. It promises nothing about its results.
pub trait PowerRequests {
    /// Hold system + execution required, and display required iff `display`, under `reason`,
    /// replacing whatever is held.
    fn request(&self, display: bool, reason: &str) -> Result<(), PlatformError>;

    /// Release whatever is held.
    fn release_request(&self) -> Result<(), PlatformError>;
}

/// A power guard over shared OS power requests: each `set` is one `request`, each `clear` one
/// `release_request`, recorded with its outcome.
pub struct SharedGuard<R: PowerRequests> {
    raw: Arc<R>,
    calls: Ghost<Seq<(GuardCall, bool)>>,
}

impl<R: PowerRequests> SharedGuard<R> {
    pub fn new(raw: Arc<R>) -> (g: SharedGuard<R>)
        ensures
            g.calls() == Seq::<(GuardCall, bool)>::empty(),
    {
        SharedGuard { raw, calls: Ghost(Seq::empty()) }
    }
}

impl<R: PowerRequests> PowerGuard for SharedGuard<R> {
    closed spec fn calls(&self) -> Seq<(GuardCall, bool)> {
        self.calls@
    }

    fn set(&mut self, display: bool, reason: &str) -> (r: Result<(), PlatformError>) {
        let r = self.raw.request(display, reason);
        proof {
            self.calls@ = self.calls@.push((GuardCall::Hold { display, reason: reason@ }, r is Ok));
        }
        r
    }

    fn clear(&mut self) -> (r: Result<(), PlatformError>) {
        let r = self.raw.release_request();
        proof {
            self.calls@ = self.calls@.push((GuardCall::Clear, r is Ok));
        }
        r
    }
}

/// What reconciling from one held mode to a desired one asks of the guard.
#[derive(Debug, Clone, Copy)]
pub enum PowerRequest {
    /// The desired mode is already held: nothing to do.
    Keep,
    /// Release the held request.
    Clear,
    /// Hold system + execution required, display iff `display`, under `reason`.
    Hold { display: bool, reason: &'static str },
}

/// The request that moves the OS from `current` to `desired`: none when they agree, a release
/// for `Off`, otherwise a request with the mode's display flag and reason.
pub open spec fn request_spec(current: WakeMode, desired: WakeMode, r: PowerRequest) -> bool {
    if current == desired {
        r == PowerRequest::Keep
    } else if desired == WakeMode::Off {
        r == PowerRequest::Clear
    } else {
        r matches PowerRequest::Hold { display, reason } && display == (desired == WakeMode::KeepPresenting)
            && reason@ == reason_text(desired)
    }
}

/// The request that moves the OS from `current` to `desired`.
pub fn request_for(current: WakeMode, desired: WakeMode) -> (r: PowerRequest)
    ensures
        request_spec(current, desired, r),
{
    if desired == current {
        PowerRequest::Keep
    } else {
        match desired {
            WakeMode::Off => PowerRequest::Clear,
            other => PowerRequest::Hold { display: other.keeps_display(), reason: other.reason() },
        }
    }
}

/// The guard call that moves the OS to `desired`: a release for `Off`, otherwise a request with
/// the mode's display flag and reason.
pub open spec fn call_for(desired: WakeMode) -> GuardCall {
    if desired == WakeMode::Off {
        GuardCall::Clear
    } else {
        GuardCall::Hold { display: desired == WakeMode::KeepPresenting, reason: reason_text(desired) }
    }
}

/// Whether the last call in a log succeeded.
pub open spec fn last_call_ok<C>(log: Seq<(C, bool)>) -> bool {
    log.last().1
}

/// What reconciling towards `desired` does, with `ok` whether it reported success: nothing at
/// all when `desired` is already held (and that is a success); otherwise exactly one guard call,
/// `call_for(desired)`, whose outcome is `ok`, with the held mode following it only when it
/// succeeded.
pub open spec fn reconciled<G: PowerGuard>(
    before: PowerReconciler<G>,
    after: PowerReconciler<G>,
    desired: WakeMode,
    ok: bool,
) -> bool {
    &&& (before.held() == desired ==> ok && after == before)
    &&& (before.held() != desired ==> after.guard_calls() == before.guard_calls().push((call_for(desired), ok)))
    &&& after.held() == if ok { desired } else { before.held() }
}

/// Acquiring is done once: after reconciling towards a mode successfully, reconciling towards it
/// again succeeds and changes nothing, so the two together made at most one guard call.
pub proof fn lemma_reconcile_acquires_once<G: PowerGuard>(
    r0: PowerReconciler<G>,
    r1: PowerReconciler<G>,
    r2: PowerReconciler<G>,
    desired: WakeMode,
    ok2: bool,
)
    requires
        reconciled(r0, r1, desired, true),
        reconciled(r1, r2, desired, ok2),
    ensures
        r2 == r1,
        ok2,
        r2.held() == desired,
        r2.guard_calls().len() <= r0.guard_calls().len() + 1,
{
}

pub struct PowerReconciler<G: PowerGuard> {
    guard: G,
    current: WakeMode,
}

impl<G: PowerGuard> PowerReconciler<G> {
    /// The mode currently held.
    pub closed spec fn held(&self) -> WakeMode {
        self.current
    }

    /// Every call made on the guard, oldest first.
    pub closed spec fn guard_calls(&self) -> Seq<(GuardCall, bool)> {
        self.guard.calls()
    }

    pub fn new(guard: G) -> (r: PowerReconciler<G>)
        ensures
            r.held() == WakeMode::Off,
            r.guard_calls() == guard.calls(),
    {
        PowerReconciler { guard, current: WakeMode::Off }
    }

    pub fn current(&self) -> (m: WakeMode)
        ensures
            m == self.held(),
    {
        self.current
    }

    /// Drive the held request to `desired`. Idempotent: with the mode already held it does
    /// nothing. Otherwise it makes the call `request_for(held, desired)` names (`Off` clears,
    /// an awake mode sets display iff presenting, with the mode's reason); the held mode follows
    /// only a call that succeeded.
    pub fn reconcile(&mut self, desired: WakeMode) -> (r: Result<(), PlatformError>)
        ensures
            reconciled(*old(self), *final(self), desired, r is Ok),
    {
        let res = match request_for(self.current, desired) {
            PowerRequest::Keep => {
                return Ok(());
            },
            PowerRequest::Clear => self.guard.clear(),
            PowerRequest::Hold { display, reason } => self.guard.set(display, reason),
        };
        match res {
            Ok(()) => {
                self.current = desired;
                Ok(())
            },
            Err(e) => Err(e),
        }
    }

    /// Release everything and return to `Off`, for shutdown: exactly one call, `clear()`, even
    /// when nothing is held; the held mode is `Off` when it succeeded and unchanged otherwise.
    pub fn release(&mut self) -> (r: Result<(), PlatformError>)
        ensures
            final(self).guard_calls() == old(self).guard_calls().push((GuardCall::Clear, r is Ok)),
            final(self).held() == if r is Ok { WakeMode::Off } else { old(self).held() },
    {
        match self.guard.clear() {
            Ok(()) => {
                self.current = WakeMode::Off;
                Ok(())
            },
            Err(e) => Err(e),
        }
    }
}

} // verus!
