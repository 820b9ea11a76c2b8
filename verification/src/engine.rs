//! The single owner of the power state. The desired mode is the maximum of the **manual**
//! override and whatever the **active profile's** rules contribute for the current `Snapshot`,
//! reconciled each tick; repeated identical ticks change nothing.

use vstd::prelude::*;

use crate::evaluator::{desired_mode, rule_contributes, strongest, lemma_desired_is_maximum_of_contributing};
use crate::modes::{rank, stronger, WakeMode};
use crate::power::{call_for, last_call_ok, GuardCall, PowerGuard, PowerReconciler};
use crate::rule::{Profile, Rule};
use crate::snapshot::Snapshot;
use crate::text::same_text;

verus! {

/// Some rule in `rs` has id `id`.
pub open spec fn has_rule(rs: Seq<Rule>, id: Seq<char>) -> bool {
    exists|i: int| 0 <= i < rs.len() && (#[trigger] rs[i]).id@ == id
}

/// `i` is the first position in `rs` of a rule with id `id`.
pub open spec fn first_rule_at(rs: Seq<Rule>, id: Seq<char>, i: int) -> bool {
    &&& 0 <= i < rs.len()
    &&& rs[i].id@ == id
    &&& forall|k: int| 0 <= k < i ==> (#[trigger] rs[k]).id@ != id
}

/// `rs` with every rule whose id is `id` taken out, order kept.
pub open spec fn without_rule(rs: Seq<Rule>, id: Seq<char>) -> Seq<Rule>
    decreases rs.len(),
{
    if rs.len() == 0 {
        rs
    } else {
        let rest = without_rule(rs.drop_first(), id);
        if rs[0].id@ == id { rest } else { seq![rs[0]] + rest }
    }
}

/// The mode a tick asks for: nothing while paused, otherwise the stronger of the manual override
/// and the profile's rules.
pub open spec fn desired_for(manual: WakeMode, paused: bool, profile: Profile, s: Snapshot) -> WakeMode {
    if paused {
        WakeMode::Off
    } else {
        stronger(manual, strongest(profile.rules@, s))
    }
}

fn first_rule_index(rules: &Vec<Rule>, id: &str) -> (r: Option<usize>)
    ensures
        match r {
            Some(i) => first_rule_at(rules@, id@, i as int),
            None => !has_rule(rules@, id@),
        },
{
    let mut i: usize = 0;
    while i < rules.len()
        invariant
            i <= rules@.len(),
            forall|k: int| 0 <= k < i ==> (#[trigger] rules@[k]).id@ != id@,
        decreases rules@.len() - i,
    {
        if same_text(rules[i].id.as_str(), id) {
            return Some(i);
        }
        i = i + 1;
    }
    None
}

/// What one tick on snapshot `s` does to an engine. The desired mode is `desired_for` the
/// engine's manual override, pause and profile. When it is already held nothing changes at all
/// and the guard is not called; otherwise the guard gets exactly one call, `call_for(desired)`,
/// and the held (and effective) mode becomes the desired one exactly when that call succeeded,
/// staying as it was when it failed. The manual override, the profile and the pause are
/// untouched.
pub open spec fn ticked<G: PowerGuard>(before: Engine<G>, after: Engine<G>, s: Snapshot) -> bool {
    let desired = desired_for(before.manual_mode(), before.is_paused(), before.active_profile(), s);
    &&& (before.power_held() == desired ==> after == before)
    &&& (before.power_held() != desired ==> {
        &&& after.power_calls() == before.power_calls().push((call_for(desired), last_call_ok(after.power_calls())))
        &&& after.power_held() == if last_call_ok(after.power_calls()) { desired } else { before.power_held() }
    })
    &&& after.effective_mode() == after.power_held()
    &&& after.manual_mode() == before.manual_mode()
    &&& after.active_profile() == before.active_profile()
    &&& after.is_paused() == before.is_paused()
}

pub struct Engine<G: PowerGuard> {
    reconciler: PowerReconciler<G>,
    manual: WakeMode,
    profile: Profile,
    paused: bool,
}

impl<G: PowerGuard> Engine<G> {
    /// The manual override.
    pub closed spec fn manual_mode(&self) -> WakeMode {
        self.manual
    }

    /// The profile whose rules are evaluated.
    pub closed spec fn active_profile(&self) -> Profile {
        self.profile
    }

    /// Whether everything is suppressed.
    pub closed spec fn is_paused(&self) -> bool {
        self.paused
    }

    /// The effective mode: the one the power request holds.
    pub closed spec fn effective_mode(&self) -> WakeMode {
        self.reconciler.held()
    }

    /// The mode the power request actually holds.
    pub closed spec fn power_held(&self) -> WakeMode {
        self.reconciler.held()
    }

    /// Every call made on the power guard, oldest first.
    pub closed spec fn power_calls(&self) -> Seq<(GuardCall, bool)> {
        self.reconciler.guard_calls()
    }

    /// A fresh engine: manual `Off`, not paused, holding nothing, with an empty profile
    /// "default" named "Default".
    pub fn new(power: G) -> (e: Engine<G>)
        ensures
            e.manual_mode() == WakeMode::Off,
            e.active_profile().id@ == "default"@,
            e.active_profile().name@ == "Default"@,
            e.active_profile().rules@.len() == 0,
            !e.is_paused(),
            e.effective_mode() == WakeMode::Off,
            e.power_held() == WakeMode::Off,
            e.power_calls() == power.calls(),
    {
        Engine {
            reconciler: PowerReconciler::new(power),
            manual: WakeMode::Off,
            profile: Profile::new("default", "Default"),
            paused: false,
        }
    }

    pub fn set_manual(&mut self, mode: WakeMode)
        ensures
            final(self).manual_mode() == mode,
            final(self).active_profile() == old(self).active_profile(),
            final(self).is_paused() == old(self).is_paused(),
            final(self).effective_mode() == old(self).effective_mode(),
            final(self).power_held() == old(self).power_held(),
            final(self).power_calls() == old(self).power_calls(),
    {
        self.manual = mode;
    }

    pub fn manual(&self) -> (m: WakeMode)
        ensures
            m == self.manual_mode(),
    {
        self.manual
    }

    pub fn set_profile(&mut self, profile: Profile)
        ensures
            final(self).active_profile() == profile,
            final(self).manual_mode() == old(self).manual_mode(),
            final(self).is_paused() == old(self).is_paused(),
            final(self).effective_mode() == old(self).effective_mode(),
            final(self).power_held() == old(self).power_held(),
            final(self).power_calls() == old(self).power_calls(),
    {
        self.profile = profile;
    }

    pub fn profile(&self) -> (p: &Profile)
        ensures
            *p == self.active_profile(),
    {
        &self.profile
    }

    pub fn profile_name(&self) -> (n: &str)
        ensures
            n@ == self.active_profile().name@,
    {
        self.profile.name.as_str()
    }

    /// Insert `rule` into the active profile, or replace the first rule with its id in place.
    pub fn upsert_rule(&mut self, rule: Rule)
        ensures
            has_rule(old(self).active_profile().rules@, rule.id@) ==> exists|i: int|
                first_rule_at(old(self).active_profile().rules@, rule.id@, i)
                    && final(self).active_profile().rules@ == old(self).active_profile().rules@.update(i, rule),
            !has_rule(old(self).active_profile().rules@, rule.id@)
                ==> final(self).active_profile().rules@ == old(self).active_profile().rules@.push(rule),
            final(self).active_profile().id == old(self).active_profile().id,
            final(self).active_profile().name == old(self).active_profile().name,
            final(self).manual_mode() == old(self).manual_mode(),
            final(self).is_paused() == old(self).is_paused(),
            final(self).effective_mode() == old(self).effective_mode(),
            final(self).power_held() == old(self).power_held(),
            final(self).power_calls() == old(self).power_calls(),
    {
        match first_rule_index(&self.profile.rules, rule.id.as_str()) {
            Some(i) => {
                self.profile.rules.set(i, rule);
            },
            None => {
                self.profile.rules.push(rule);
            },
        }
    }

    /// Remove every rule with `id` from the active profile.
    pub fn delete_rule(&mut self, id: &str)
        ensures
            final(self).active_profile().rules@ == without_rule(old(self).active_profile().rules@, id@),
            final(self).active_profile().id == old(self).active_profile().id,
            final(self).active_profile().name == old(self).active_profile().name,
            final(self).manual_mode() == old(self).manual_mode(),
            final(self).is_paused() == old(self).is_paused(),
            final(self).effective_mode() == old(self).effective_mode(),
            final(self).power_held() == old(self).power_held(),
            final(self).power_calls() == old(self).power_calls(),
    {
        let ghost initial = self.profile.rules@;
        let mut rest: Vec<Rule> = Vec::new();
        std::mem::swap(&mut self.profile.rules, &mut rest);
        let mut kept: Vec<Rule> = Vec::new();
        while rest.len() > 0
            invariant
                kept@ + without_rule(rest@, id@) == without_rule(initial, id@),
            decreases rest@.len(),
        {
            let ghost prev = rest@;
            let r = rest.remove(0);
            proof {
                assert(rest@ == prev.drop_first());
            }
            if !same_text(r.id.as_str(), id) {
                kept.push(r);
            }
            proof {
                assert(kept@ + without_rule(rest@, id@) =~= without_rule(initial, id@));
            }
        }
        proof {
            assert(without_rule(rest@, id@) =~= rest@);
            assert(kept@ =~= without_rule(initial, id@));
        }
        self.profile.rules = kept;
    }

    /// Switch the first rule with `id` on or off; nothing changes when there is none.
    pub fn set_rule_enabled(&mut self, id: &str, enabled: bool)
        ensures
            has_rule(old(self).active_profile().rules@, id@) ==> exists|i: int|
                first_rule_at(old(self).active_profile().rules@, id@, i)
                    && final(self).active_profile().rules@ == old(self).active_profile().rules@.update(
                    i,
                    Rule { enabled, ..old(self).active_profile().rules@[i] },
                ),
            !has_rule(old(self).active_profile().rules@, id@)
                ==> final(self).active_profile().rules@ == old(self).active_profile().rules@,
            final(self).active_profile().id == old(self).active_profile().id,
            final(self).active_profile().name == old(self).active_profile().name,
            final(self).manual_mode() == old(self).manual_mode(),
            final(self).is_paused() == old(self).is_paused(),
            final(self).effective_mode() == old(self).effective_mode(),
            final(self).power_held() == old(self).power_held(),
            final(self).power_calls() == old(self).power_calls(),
    {
        if let Some(i) = first_rule_index(&self.profile.rules, id) {
            let ghost before = self.profile.rules@;
            let mut r = self.profile.rules.remove(i);
            r.enabled = enabled;
            self.profile.rules.insert(i, r);
            proof {
                assert(self.profile.rules@ =~= before.update(i as int, Rule { enabled, ..before[i as int] }));
                assert(first_rule_at(before, id@, i as int));
            }
        }
    }

    pub fn set_paused(&mut self, paused: bool)
        ensures
            final(self).is_paused() == paused,
            final(self).manual_mode() == old(self).manual_mode(),
            final(self).active_profile() == old(self).active_profile(),
            final(self).effective_mode() == old(self).effective_mode(),
            final(self).power_held() == old(self).power_held(),
            final(self).power_calls() == old(self).power_calls(),
    {
        self.paused = paused;
    }

    pub fn paused(&self) -> (p: bool)
        ensures
            p == self.is_paused(),
    {
        self.paused
    }

    /// The effective mode currently held (after the last tick).
    pub fn mode(&self) -> (m: WakeMode)
        ensures
            m == self.effective_mode(),
    {
        self.reconciler.current()
    }

    /// Recompute desired = max(manual, rules), or `Off` while paused, and reconcile the power
    /// request towards it; see `ticked`.
    pub fn tick(&mut self, snap: &Snapshot)
        ensures
            ticked(*old(self), *final(self), *snap),
    {
        let desired = if self.paused {
            WakeMode::Off
        } else {
            self.manual.max_with(desired_mode(&self.profile, snap))
        };
        let _ = self.reconciler.reconcile(desired);
    }

    /// Release the power request and return the manual override to `Off`. The guard gets exactly
    /// one call, `clear()`, even when nothing is held; the held (and effective) mode is `Off` when
    /// that call succeeded and unchanged when it failed.
    pub fn release(&mut self)
        ensures
            final(self).manual_mode() == WakeMode::Off,
            final(self).power_calls() == old(self).power_calls().push((GuardCall::Clear, last_call_ok(final(self).power_calls()))),
            final(self).power_held() == if last_call_ok(final(self).power_calls()) {
                WakeMode::Off
            } else {
                old(self).power_held()
            },
            final(self).effective_mode() == final(self).power_held(),
            final(self).active_profile() == old(self).active_profile(),
            final(self).is_paused() == old(self).is_paused(),
    {
        let _ = self.reconciler.release();
        self.manual = WakeMode::Off;
    }
}

/// Repeated identical ticks are a no-op: once a tick has brought the held request to the
/// desired mode, ticking again on the same snapshot makes no guard call and changes nothing;
/// the two ticks together made at most one call.
pub proof fn lemma_identical_ticks_settle<G: PowerGuard>(e0: Engine<G>, e1: Engine<G>, e2: Engine<G>, s: Snapshot)
    requires
        ticked(e0, e1, s),
        e1.power_held() == desired_for(e0.manual_mode(), e0.is_paused(), e0.active_profile(), s),
        ticked(e1, e2, s),
    ensures
        e2 == e1,
        e2.power_calls() == e1.power_calls(),
        e2.power_calls().len() <= e0.power_calls().len() + 1,
{
}

/// A tick whose guard call succeeded (or that needed none) leaves the effective mode at the
/// desired one: the stronger of the manual override and the rules, or `Off` while paused.
pub proof fn lemma_granted_tick_reaches_desired<G: PowerGuard>(e0: Engine<G>, e1: Engine<G>, s: Snapshot)
    requires
        ticked(e0, e1, s),
        e1.power_calls().len() > e0.power_calls().len() ==> last_call_ok(e1.power_calls()),
    ensures
        e1.effective_mode() == desired_for(e0.manual_mode(), e0.is_paused(), e0.active_profile(), s),
{
}

/// Unless paused, a tick never asks for less than the manual override, nor less than any rule
/// of the active profile that contributes: a weaker contribution never lowers a stronger one.
pub proof fn lemma_desired_dominates(manual: WakeMode, profile: Profile, s: Snapshot)
    ensures
        rank(manual) <= rank(desired_for(manual, false, profile, s)),
        forall|i: int| 0 <= i < profile.rules@.len() && rule_contributes(#[trigger] profile.rules@[i], s)
            ==> rank(profile.rules@[i].mode) <= rank(desired_for(manual, false, profile, s)),
        desired_for(manual, true, profile, s) == WakeMode::Off,
{
    lemma_desired_is_maximum_of_contributing(profile.rules@, s);
}

} // verus!
