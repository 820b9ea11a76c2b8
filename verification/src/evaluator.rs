//! Pure condition evaluation. Every branch is checkable against a hand-built `Snapshot`.

use vstd::prelude::*;

use crate::modes::{rank, stronger, WakeMode};
use crate::rule::{same_condition, same_profile, same_rule, same_strings, Condition, NotifState, Profile, Rule};
use crate::snapshot::Snapshot;
use crate::text::{is_listed, listed, same_name};

verus! {

/// Whether a weekly time window holds at `weekday`/`minutes`. A window with `from > to` crosses
/// midnight: its day flag names the *start* day, so the `[0, to)` tail belongs to the previous
/// day's occurrence.
pub open spec fn window_holds(days: Seq<bool>, from: u16, to: u16, weekday: u8, minutes: u16) -> bool {
    let wd = (weekday as int) % 7;
    let prev = (wd + 6) % 7;
    if from <= to {
        days[wd] && minutes >= from && minutes < to
    } else {
        (days[wd] && minutes >= from) || (days[prev] && minutes < to)
    }
}

/// Whether a condition holds against a snapshot.
pub open spec fn holds(c: Condition, s: Snapshot) -> bool
    decreases c,
{
    match c {
        Condition::ProcessRunning(names) => exists|i: int|
            0 <= i < names@.len() && listed(s.running_processes@, (#[trigger] names@[i])@),
        Condition::TimeWindow { days, from, to } => window_holds(days@, from, to, s.weekday, s.minutes),
        Condition::ExpiryAt(deadline) => s.epoch_secs < deadline,
        Condition::OnACPower => s.on_ac,
        Condition::BatteryAbove(p) => s.battery_pct >= p,
        Condition::SessionUnlocked => !s.session_locked,
        Condition::NotificationStateIn(set) => set@.contains(s.notification_state),
        Condition::ForegroundAppIn(list) => match s.foreground_exe {
            Some(fg) => listed(list@, fg@),
            None => false,
        },
        Condition::ForegroundAppNotIn(list) => match s.foreground_exe {
            Some(fg) => !listed(list@, fg@),
            None => true,
        },
        Condition::Not(inner) => !holds(*inner, s),
        Condition::AnyOf(cs) => exists|i: int| 0 <= i < cs@.len() && holds(#[trigger] cs@[i], s),
        Condition::AllOf(cs) => forall|i: int| 0 <= i < cs@.len() ==> holds(#[trigger] cs@[i], s),
    }
}

/// A rule contributes iff it is enabled and every condition holds (no conditions: always).
pub open spec fn rule_contributes(r: Rule, s: Snapshot) -> bool {
    r.enabled && forall|i: int| 0 <= i < r.conditions@.len() ==> holds(#[trigger] r.conditions@[i], s)
}

/// What one rule contributes: its mode when it holds, `Off` otherwise.
pub open spec fn contribution(r: Rule, s: Snapshot) -> WakeMode {
    if rule_contributes(r, s) { r.mode } else { WakeMode::Off }
}

/// The strongest mode among the rules that contribute; `Off` when none does.
pub open spec fn strongest(rules: Seq<Rule>, s: Snapshot) -> WakeMode
    decreases rules.len(),
{
    if rules.len() == 0 {
        WakeMode::Off
    } else {
        stronger(strongest(rules.drop_last(), s), contribution(rules.last(), s))
    }
}

/// Seconds left on a condition's deadline, when it is an `ExpiryAt` that has not yet passed.
pub open spec fn seconds_left(c: Condition, now: u64) -> Option<u64> {
    match c {
        Condition::ExpiryAt(deadline) => if deadline > now {
            Some((deadline - now) as u64)
        } else {
            None
        },
        _ => None,
    }
}

/// `d` is no later than the optional countdown `o` (anything is no later than nothing).
pub open spec fn no_later_than(d: u64, o: Option<u64>) -> bool {
    match o {
        Some(e) => d <= e,
        None => true,
    }
}

/// The smaller of two optional values; `None` counts as "nothing".
pub open spec fn min_opt(a: Option<u64>, b: Option<u64>) -> Option<u64> {
    match (a, b) {
        (Some(x), Some(y)) => Some(if x <= y { x } else { y }),
        (Some(x), None) => Some(x),
        (None, Some(y)) => Some(y),
        (None, None) => None,
    }
}

/// The soonest live deadline among a list of conditions (top level only).
pub open spec fn soonest_in(cs: Seq<Condition>, now: u64) -> Option<u64>
    decreases cs.len(),
{
    if cs.len() == 0 {
        None
    } else {
        min_opt(soonest_in(cs.drop_last(), now), seconds_left(cs.last(), now))
    }
}

/// The soonest live deadline among the enabled rules.
pub open spec fn soonest(rules: Seq<Rule>, now: u64) -> Option<u64>
    decreases rules.len(),
{
    if rules.len() == 0 {
        None
    } else {
        let r = rules.last();
        min_opt(soonest(rules.drop_last(), now), if r.enabled { soonest_in(r.conditions@, now) } else { None })
    }
}

fn time_window_holds(days: [bool; 7], from: u16, to: u16, weekday: u8, minutes: u16) -> (r: bool)
    ensures
        r == window_holds(days@, from, to, weekday, minutes),
{
    let wd = (weekday as usize) % 7;
    let prev = (wd + 6) % 7;
    if from <= to {
        days[wd] && minutes >= from && minutes < to
    } else {
        (days[wd] && minutes >= from) || (days[prev] && minutes < to)
    }
}

fn state_in(set: &Vec<NotifState>, state: NotifState) -> (r: bool)
    ensures
        r == set@.contains(state),
{
    let mut i: usize = 0;
    while i < set.len()
        invariant
            i <= set@.len(),
            forall|k: int| 0 <= k < i ==> set@[k] != state,
        decreases set@.len() - i,
    {
        if set[i] == state {
            return true;
        }
        i = i + 1;
    }
    false
}

fn any_listed(names: &Vec<String>, running: &Vec<String>) -> (r: bool)
    ensures
        r == exists|i: int| 0 <= i < names@.len() && listed(running@, (#[trigger] names@[i])@),
{
    let mut i: usize = 0;
    while i < names.len()
        invariant
            i <= names@.len(),
            forall|k: int| 0 <= k < i ==> !listed(running@, (#[trigger] names@[k])@),
        decreases names@.len() - i,
    {
        if is_listed(running, names[i].as_str()) {
            return true;
        }
        i = i + 1;
    }
    false
}

impl Condition {
    /// Evaluate this condition against a snapshot.
    #[verifier::loop_isolation(false)]
    pub fn eval(&self, s: &Snapshot) -> (r: bool)
        ensures
            r == holds(*self, *s),
        decreases self,
    {
        match self {
            Condition::ProcessRunning(names) => any_listed(names, &s.running_processes),
            Condition::TimeWindow { days, from, to } => time_window_holds(*days, *from, *to, s.weekday, s.minutes),
            Condition::ExpiryAt(deadline) => s.epoch_secs < *deadline,
            Condition::OnACPower => s.on_ac,
            Condition::BatteryAbove(p) => s.battery_pct >= *p,
            Condition::SessionUnlocked => !s.session_locked,
            Condition::NotificationStateIn(set) => state_in(set, s.notification_state),
            Condition::ForegroundAppIn(list) => match &s.foreground_exe {
                Some(fg) => is_listed(list, fg.as_str()),
                None => false,
            },
            Condition::ForegroundAppNotIn(list) => match &s.foreground_exe {
                Some(fg) => !is_listed(list, fg.as_str()),
                None => true,
            },
            Condition::Not(c) => !c.eval(s),
            Condition::AnyOf(cs) => {
                let mut i: usize = 0;
                while i < cs.len()
                    invariant
                        i <= cs@.len(),
                        forall|k: int| 0 <= k < i ==> !holds(#[trigger] cs@[k], *s),
                    decreases cs@.len() - i,
                {
                    proof {
                        assert(decreases_to!(*self => cs@[i as int]));
                    }
                    if cs[i].eval(s) {
                        return true;
                    }
                    i = i + 1;
                }
                false
            },
            Condition::AllOf(cs) => {
                let mut i: usize = 0;
                while i < cs.len()
                    invariant
                        i <= cs@.len(),
                        forall|k: int| 0 <= k < i ==> holds(#[trigger] cs@[k], *s),
                    decreases cs@.len() - i,
                {
                    proof {
                        assert(decreases_to!(*self => cs@[i as int]));
                    }
                    if !cs[i].eval(s) {
                        return false;
                    }
                    i = i + 1;
                }
                true
            },
        }
    }
}

/// A rule contributes iff it is enabled and every condition holds (empty conditions = always).
pub fn rule_holds(rule: &Rule, s: &Snapshot) -> (r: bool)
    ensures
        r == rule_contributes(*rule, *s),
{
    if !rule.enabled {
        return false;
    }
    let mut i: usize = 0;
    while i < rule.conditions.len()
        invariant
            rule.enabled,
            i <= rule.conditions@.len(),
            forall|k: int| 0 <= k < i ==> holds(#[trigger] rule.conditions@[k], *s),
        decreases rule.conditions@.len() - i,
    {
        if !rule.conditions[i].eval(s) {
            return false;
        }
        i = i + 1;
    }
    true
}

/// The mode the machine should hold: the maximum over all contributing rules.
pub fn desired_mode(profile: &Profile, s: &Snapshot) -> (r: WakeMode)
    ensures
        r == strongest(profile.rules@, *s),
{
    let mut acc = WakeMode::Off;
    let mut i: usize = 0;
    while i < profile.rules.len()
        invariant
            i <= profile.rules@.len(),
            acc == strongest(profile.rules@.subrange(0, i as int), *s),
        decreases profile.rules@.len() - i,
    {
        proof {
            assert(profile.rules@.subrange(0, i + 1).drop_last() =~= profile.rules@.subrange(0, i as int));
        }
        if rule_holds(&profile.rules[i], s) {
            acc = acc.max_with(profile.rules[i].mode);
        } else {
            acc = acc.max_with(WakeMode::Off);
        }
        i = i + 1;
    }
    proof {
        assert(profile.rules@.subrange(0, i as int) =~= profile.rules@);
    }
    acc
}

fn min_option(a: Option<u64>, b: Option<u64>) -> (r: Option<u64>)
    ensures
        r == min_opt(a, b),
{
    match (a, b) {
        (Some(x), Some(y)) => Some(if x <= y { x } else { y }),
        (Some(x), None) => Some(x),
        (None, Some(y)) => Some(y),
        (None, None) => None,
    }
}

fn soonest_in_conditions(cs: &Vec<Condition>, now: u64) -> (r: Option<u64>)
    ensures
        r == soonest_in(cs@, now),
{
    let mut acc: Option<u64> = None;
    let mut i: usize = 0;
    while i < cs.len()
        invariant
            i <= cs@.len(),
            acc == soonest_in(cs@.subrange(0, i as int), now),
        decreases cs@.len() - i,
    {
        proof {
            assert(cs@.subrange(0, i + 1).drop_last() =~= cs@.subrange(0, i as int));
        }
        let left = match &cs[i] {
            Condition::ExpiryAt(deadline) => match deadline.checked_sub(now) {
                Some(d) => if d > 0 { Some(d) } else { None },
                None => None,
            },
            _ => None,
        };
        acc = min_option(acc, left);
        i = i + 1;
    }
    proof {
        assert(cs@.subrange(0, i as int) =~= cs@);
    }
    acc
}

/// Seconds until the soonest deadline among enabled rules that carry an `ExpiryAt`.
/// `None` when nothing is counting down; an elapsed deadline counts for nothing.
pub fn soonest_expiry_secs(profile: &Profile, s: &Snapshot) -> (r: Option<u64>)
    ensures
        r == soonest(profile.rules@, s.epoch_secs),
{
    let mut acc: Option<u64> = None;
    let mut i: usize = 0;
    while i < profile.rules.len()
        invariant
            i <= profile.rules@.len(),
            acc == soonest(profile.rules@.subrange(0, i as int), s.epoch_secs),
        decreases profile.rules@.len() - i,
    {
        proof {
            assert(profile.rules@.subrange(0, i + 1).drop_last() =~= profile.rules@.subrange(0, i as int));
        }
        let here = if profile.rules[i].enabled {
            soonest_in_conditions(&profile.rules[i].conditions, s.epoch_secs)
        } else {
            None
        };
        acc = min_option(acc, here);
        i = i + 1;
    }
    proof {
        assert(profile.rules@.subrange(0, i as int) =~= profile.rules@);
    }
    acc
}

/// The desired mode is the maximum over the contributing rules: every contributing rule's mode
/// is at most the desired mode, and the desired mode is `Off` or the mode of a contributing rule.
pub proof fn lemma_desired_is_maximum_of_contributing(rules: Seq<Rule>, s: Snapshot)
    ensures
        forall|i: int| 0 <= i < rules.len() && rule_contributes(#[trigger] rules[i], s)
            ==> rank(rules[i].mode) <= rank(strongest(rules, s)),
        strongest(rules, s) == WakeMode::Off || exists|i: int|
            0 <= i < rules.len() && rule_contributes(#[trigger] rules[i], s) && rules[i].mode == strongest(rules, s),
    decreases rules.len(),
{
    if rules.len() > 0 {
        let init = rules.drop_last();
        lemma_desired_is_maximum_of_contributing(init, s);
        assert forall|i: int| 0 <= i < rules.len() && rule_contributes(#[trigger] rules[i], s)
            implies rank(rules[i].mode) <= rank(strongest(rules, s)) by {
            if i < rules.len() - 1 {
                assert(init[i] == rules[i]);
            }
        }
        if strongest(rules, s) != WakeMode::Off {
            if strongest(rules, s) == contribution(rules.last(), s) {
                assert(rules[rules.len() - 1] == rules.last());
            } else {
                let j = choose|j: int| 0 <= j < init.len() && rule_contributes(#[trigger] init[j], s)
                    && init[j].mode == strongest(init, s);
                assert(rules[j] == init[j]);
            }
        }
    }
}

/// A rule that is switched off never contributes, whatever its conditions.
pub proof fn lemma_disabled_rule_never_contributes(r: Rule, s: Snapshot)
    requires
        !r.enabled,
    ensures
        !rule_contributes(r, s),
        contribution(r, s) == WakeMode::Off,
{
}

/// The connectives evaluate as logic does: `Not` is the negation of its condition, `AnyOf`
/// holds when some member holds (so an empty `AnyOf` never holds), `AllOf` when every member
/// holds (so an empty `AllOf` always holds), and `ForegroundAppNotIn` is the negation of
/// `ForegroundAppIn` over the same list.
pub proof fn lemma_eval_connectives(c: Condition, cs: Vec<Condition>, list: Vec<String>, s: Snapshot)
    ensures
        holds(Condition::Not(Box::new(c)), s) == !holds(c, s),
        holds(Condition::AnyOf(cs), s) == exists|i: int| 0 <= i < cs@.len() && holds(#[trigger] cs@[i], s),
        holds(Condition::AllOf(cs), s) == forall|i: int| 0 <= i < cs@.len() ==> holds(#[trigger] cs@[i], s),
        cs@.len() == 0 ==> !holds(Condition::AnyOf(cs), s) && holds(Condition::AllOf(cs), s),
        holds(Condition::ForegroundAppNotIn(list), s) == !holds(Condition::ForegroundAppIn(list), s),
{
    let any = Condition::AnyOf(cs);
    if exists|i: int| 0 <= i < cs@.len() && holds(#[trigger] cs@[i], s) {
        let i = choose|i: int| 0 <= i < cs@.len() && holds(#[trigger] cs@[i], s);
        assert(decreases_to!(any => cs@[i])) by {
            assert(decreases_to!(any => any->AnyOf_0));
            assert(decreases_to!(cs => cs@));
            assert(decreases_to!(cs@ => cs@[i]));
        }
        assert(holds(any, s));
    }
    if holds(any, s) {
        let i = choose|i: int| 0 <= i < cs@.len() && holds(#[trigger] cs@[i], s);
        assert(decreases_to!(any => cs@[i])) by {
            assert(decreases_to!(any => any->AnyOf_0));
            assert(decreases_to!(cs => cs@));
            assert(decreases_to!(cs@ => cs@[i]));
        }
    }
    lemma_all_of_holds(cs, s);
}

/// An `AllOf` holds exactly when every member holds.
proof fn lemma_all_of_holds(cs: Vec<Condition>, s: Snapshot)
    ensures
        holds(Condition::AllOf(cs), s) == forall|i: int| 0 <= i < cs@.len() ==> holds(#[trigger] cs@[i], s),
{
    reveal_with_fuel(holds, 2);
    let all = Condition::AllOf(cs);
    if forall|i: int| 0 <= i < cs@.len() ==> holds(#[trigger] cs@[i], s) {
        assert forall|i: int| 0 <= i < cs@.len() implies holds(#[trigger] cs@[i], s) by {
            assert(decreases_to!(all => cs@[i])) by {
                assert(decreases_to!(all => all->AllOf_0));
                assert(decreases_to!(cs => cs@));
                assert(decreases_to!(cs@ => cs@[i]));
            }
        }
        assert(holds(all, s));
    }
    if holds(all, s) {
        assert forall|i: int| 0 <= i < cs@.len() implies holds(#[trigger] cs@[i], s) by {
            assert(decreases_to!(all => cs@[i])) by {
                assert(decreases_to!(all => all->AllOf_0));
                assert(decreases_to!(cs => cs@));
                assert(decreases_to!(cs@ => cs@[i]));
            }
        }
    }
}

/// A time window's occurrences, day by day. With `wd` the snapshot's weekday (0 = Monday) and
/// `prev` the day before it: a window with `from <= to` holds exactly on a flagged day from
/// `from` up to, not including, `to`. A window with `from > to` crosses midnight and its flag
/// names the day it starts: from `from` on it holds exactly when today is flagged, before `to`
/// exactly when yesterday is flagged, and in between never.
pub proof fn lemma_time_window_occurrences(days: [bool; 7], from: u16, to: u16, s: Snapshot)
    ensures
        ({
            let w = Condition::TimeWindow { days, from, to };
            let wd = (s.weekday as int) % 7;
            let prev = if wd == 0 { 6 } else { wd - 1 };
            &&& from <= to ==> (holds(w, s) <==> days@[wd] && from <= s.minutes && s.minutes < to)
            &&& from > to && s.minutes >= from ==> (holds(w, s) <==> days@[wd])
            &&& from > to && s.minutes < to ==> (holds(w, s) <==> days@[prev])
            &&& from > to && to <= s.minutes && s.minutes < from ==> !holds(w, s)
        }),
{
}

/// An `ExpiryAt` holds strictly before its deadline and releases at it.
pub proof fn lemma_expiry_releases_at_deadline(deadline: u64, s: Snapshot)
    ensures
        holds(Condition::ExpiryAt(deadline), s) <==> s.epoch_secs < deadline,
{
}

/// The soonest countdown among a list of conditions is the least time left on a live deadline:
/// `None` exactly when no `ExpiryAt` among them is still in the future.
pub proof fn lemma_soonest_in_is_minimum(cs: Seq<Condition>, now: u64)
    ensures
        soonest_in(cs, now) is None <==> forall|j: int| 0 <= j < cs.len() ==> seconds_left(#[trigger] cs[j], now) is None,
        soonest_in(cs, now) matches Some(d) ==> {
            &&& d > 0
            &&& (forall|j: int| 0 <= j < cs.len() ==> no_later_than(d, seconds_left(#[trigger] cs[j], now)))
            &&& exists|j: int| 0 <= j < cs.len() && seconds_left(#[trigger] cs[j], now) == Some(d)
        },
    decreases cs.len(),
{
    if cs.len() > 0 {
        let init = cs.drop_last();
        lemma_soonest_in_is_minimum(init, now);
        assert forall|j: int| 0 <= j < init.len() implies #[trigger] init[j] == cs[j] by {}
        assert(cs[cs.len() - 1] == cs.last());
        if soonest_in(cs, now) is None {
            assert forall|j: int| 0 <= j < cs.len() implies seconds_left(#[trigger] cs[j], now) is None by {
                if j < cs.len() - 1 {
                    assert(init[j] == cs[j]);
                }
            }
        }
        if let Some(d) = soonest_in(cs, now) {
            assert forall|j: int| 0 <= j < cs.len() implies no_later_than(d, seconds_left(#[trigger] cs[j], now)) by {
                if j < cs.len() - 1 {
                    assert(init[j] == cs[j]);
                }
            }
            if soonest_in(init, now) == Some(d) {
                let j = choose|j: int| 0 <= j < init.len() && seconds_left(#[trigger] init[j], now) == Some(d);
                assert(init[j] == cs[j]);
            }
        }
    }
}

/// The tray countdown is the least time left on a live deadline of an enabled rule: `None`
/// exactly when no enabled rule has a deadline still in the future, and never zero.
pub proof fn lemma_soonest_is_minimum(rules: Seq<Rule>, now: u64)
    ensures
        soonest(rules, now) is None <==> forall|i: int, j: int|
            0 <= i < rules.len() && (#[trigger] rules[i]).enabled && 0 <= j < rules[i].conditions@.len()
                ==> seconds_left(#[trigger] rules[i].conditions@[j], now) is None,
        soonest(rules, now) matches Some(d) ==> {
            &&& d > 0
            &&& (forall|i: int, j: int|
                0 <= i < rules.len() && (#[trigger] rules[i]).enabled && 0 <= j < rules[i].conditions@.len()
                    ==> no_later_than(d, seconds_left(#[trigger] rules[i].conditions@[j], now)))
            &&& exists|i: int, j: int|
                0 <= i < rules.len() && (#[trigger] rules[i]).enabled && 0 <= j < rules[i].conditions@.len()
                    && seconds_left(#[trigger] rules[i].conditions@[j], now) == Some(d)
        },
    decreases rules.len(),
{
    if rules.len() > 0 {
        let init = rules.drop_last();
        let r = rules.last();
        lemma_soonest_is_minimum(init, now);
        lemma_soonest_in_is_minimum(r.conditions@, now);
        assert(rules[rules.len() - 1] == r);
        assert forall|i: int| 0 <= i < init.len() implies #[trigger] init[i] == rules[i] by {}
        if soonest(rules, now) is None {
            assert forall|i: int, j: int|
                0 <= i < rules.len() && (#[trigger] rules[i]).enabled && 0 <= j < rules[i].conditions@.len()
                    implies seconds_left(#[trigger] rules[i].conditions@[j], now) is None by {
                if i < rules.len() - 1 {
                    assert(init[i] == rules[i]);
                }
            }
        } else {
            if soonest(init, now) is Some {
                let (i, j) = choose|i: int, j: int|
                    0 <= i < init.len() && (#[trigger] init[i]).enabled && 0 <= j < init[i].conditions@.len()
                        && seconds_left(#[trigger] init[i].conditions@[j], now) is Some;
                assert(init[i] == rules[i]);
            } else {
                let j = choose|j: int| 0 <= j < r.conditions@.len() && seconds_left(#[trigger] r.conditions@[j], now) is Some;
                assert(rules[rules.len() - 1].conditions@[j] == r.conditions@[j]);
            }
        }
        if let Some(d) = soonest(rules, now) {
            assert forall|i: int, j: int|
                0 <= i < rules.len() && (#[trigger] rules[i]).enabled && 0 <= j < rules[i].conditions@.len()
                    implies no_later_than(d, seconds_left(#[trigger] rules[i].conditions@[j], now)) by {
                if i < rules.len() - 1 {
                    assert(init[i] == rules[i]);
                }
            }
            if soonest(init, now) == Some(d) {
                let (i, j) = choose|i: int, j: int|
                    0 <= i < init.len() && (#[trigger] init[i]).enabled && 0 <= j < init[i].conditions@.len()
                        && seconds_left(#[trigger] init[i].conditions@[j], now) == Some(d);
                assert(init[i] == rules[i]);
            } else {
                let j = choose|j: int| 0 <= j < r.conditions@.len() && seconds_left(#[trigger] r.conditions@[j], now) == Some(d);
                assert(rules[rules.len() - 1].conditions@[j] == r.conditions@[j]);
            }
        }
    }
}

/// A list and its copy name the same processes.
proof fn lemma_listed_alike(a: Seq<String>, b: Seq<String>, name: Seq<char>)
    requires
        same_strings(a, b),
    ensures
        listed(a, name) == listed(b, name),
{
    if listed(a, name) {
        let i = choose|i: int| 0 <= i < a.len() && same_name(#[trigger] a[i]@, name);
        assert(same_name(b[i]@, name));
    }
    if listed(b, name) {
        let i = choose|i: int| 0 <= i < b.len() && same_name(#[trigger] b[i]@, name);
        assert(a[i]@ == b[i]@);
        assert(same_name(a[i]@, name));
    }
}

/// The same guard holds on exactly the same snapshots: a copied condition evaluates like the
/// one it was copied from.
pub proof fn lemma_same_condition_holds_alike(a: Condition, b: Condition, s: Snapshot)
    requires
        same_condition(a, b),
    ensures
        holds(a, s) == holds(b, s),
    decreases a,
{
    match (a, b) {
        (Condition::ProcessRunning(x), Condition::ProcessRunning(y)) => {
            if holds(a, s) {
                let i = choose|i: int| 0 <= i < x@.len() && listed(s.running_processes@, (#[trigger] x@[i])@);
                assert(listed(s.running_processes@, y@[i]@));
            }
            if holds(b, s) {
                let i = choose|i: int| 0 <= i < y@.len() && listed(s.running_processes@, (#[trigger] y@[i])@);
                assert(x@[i]@ == y@[i]@);
                assert(listed(s.running_processes@, x@[i]@));
            }
        },
        (Condition::ForegroundAppIn(x), Condition::ForegroundAppIn(y)) => {
            if let Some(fg) = s.foreground_exe {
                lemma_listed_alike(x@, y@, fg@);
            }
        },
        (Condition::ForegroundAppNotIn(x), Condition::ForegroundAppNotIn(y)) => {
            if let Some(fg) = s.foreground_exe {
                lemma_listed_alike(x@, y@, fg@);
            }
        },
        (Condition::Not(x), Condition::Not(y)) => {
            lemma_same_condition_holds_alike(*x, *y, s);
        },
        (Condition::AnyOf(x), Condition::AnyOf(y)) => {
            assert forall|i: int| 0 <= i < x@.len() implies holds(#[trigger] x@[i], s) == holds(y@[i], s) by {
                assert(decreases_to!(a => x@[i]));
                lemma_same_condition_holds_alike(x@[i], y@[i], s);
            }
            if holds(b, s) {
                let i = choose|i: int| 0 <= i < y@.len() && holds(#[trigger] y@[i], s);
                assert(holds(x@[i], s));
            }
        },
        (Condition::AllOf(x), Condition::AllOf(y)) => {
            assert forall|i: int| 0 <= i < x@.len() implies holds(#[trigger] x@[i], s) == holds(y@[i], s) by {
                assert(decreases_to!(a => x@[i]));
                lemma_same_condition_holds_alike(x@[i], y@[i], s);
            }
            if holds(a, s) {
                assert forall|i: int| 0 <= i < y@.len() implies holds(#[trigger] y@[i], s) by {
                    assert(holds(x@[i], s));
                }
            }
        },
        _ => {},
    }
}

/// The same profile drives the engine alike: on every snapshot its rules contribute the same
/// strongest mode and count down to the same deadline, so a copied profile behaves as the one
/// it was copied from.
pub proof fn lemma_same_profile_evaluates_alike(p: Profile, q: Profile, s: Snapshot)
    requires
        same_profile(p, q),
    ensures
        strongest(p.rules@, s) == strongest(q.rules@, s),
        soonest(p.rules@, s.epoch_secs) == soonest(q.rules@, s.epoch_secs),
{
    lemma_same_rules_evaluate_alike(p.rules@, q.rules@, s);
}

proof fn lemma_same_rules_evaluate_alike(a: Seq<Rule>, b: Seq<Rule>, s: Snapshot)
    requires
        a.len() == b.len(),
        forall|i: int| 0 <= i < a.len() ==> same_rule(#[trigger] a[i], b[i]),
    ensures
        strongest(a, s) == strongest(b, s),
        soonest(a, s.epoch_secs) == soonest(b, s.epoch_secs),
    decreases a.len(),
{
    if a.len() > 0 {
        let n = a.len() - 1;
        lemma_same_rules_evaluate_alike(a.drop_last(), b.drop_last(), s);
        let (ra, rb) = (a.last(), b.last());
        assert(same_rule(a[n], b[n]));
        assert forall|k: int| 0 <= k < ra.conditions@.len() implies holds(#[trigger] ra.conditions@[k], s)
            == holds(rb.conditions@[k], s) by {
            lemma_same_condition_holds_alike(ra.conditions@[k], rb.conditions@[k], s);
        }
        assert(rule_contributes(ra, s) == rule_contributes(rb, s)) by {
            if rule_contributes(ra, s) {
                assert forall|k: int| 0 <= k < rb.conditions@.len() implies holds(#[trigger] rb.conditions@[k], s) by {
                    assert(holds(ra.conditions@[k], s));
                }
            }
            if rule_contributes(rb, s) {
                assert forall|k: int| 0 <= k < ra.conditions@.len() implies holds(#[trigger] ra.conditions@[k], s) by {
                    assert(holds(rb.conditions@[k], s));
                }
            }
        }
        lemma_same_conditions_count_down_alike(ra.conditions@, rb.conditions@, s.epoch_secs);
    }
}

proof fn lemma_same_conditions_count_down_alike(a: Seq<Condition>, b: Seq<Condition>, now: u64)
    requires
        a.len() == b.len(),
        forall|i: int| 0 <= i < a.len() ==> same_condition(#[trigger] a[i], b[i]),
    ensures
        soonest_in(a, now) == soonest_in(b, now),
    decreases a.len(),
{
    if a.len() > 0 {
        let n = a.len() - 1;
        lemma_same_conditions_count_down_alike(a.drop_last(), b.drop_last(), now);
        assert(same_condition(a[n], b[n]));
        assert(seconds_left(a.last(), now) == seconds_left(b.last(), now));
    }
}

/// The strongest contribution depends only on which rules the profile holds, not on their
/// order or how often each occurs: two rule lists holding the same rules give the same mode.
pub proof fn lemma_desired_ignores_rule_order(a: Seq<Rule>, b: Seq<Rule>, s: Snapshot)
    requires
        forall|r: Rule| a.contains(r) <==> b.contains(r),
    ensures
        strongest(a, s) == strongest(b, s),
{
    lemma_desired_is_maximum_of_contributing(a, s);
    lemma_desired_is_maximum_of_contributing(b, s);
    if strongest(a, s) != WakeMode::Off {
        let i = choose|i: int| 0 <= i < a.len() && rule_contributes(#[trigger] a[i], s) && a[i].mode == strongest(a, s);
        assert(a.contains(a[i]));
        assert(b.contains(a[i]));
        let j = choose|j: int| 0 <= j < b.len() && b[j] == a[i];
        assert(rule_contributes(b[j], s));
    }
    if strongest(b, s) != WakeMode::Off {
        let i = choose|i: int| 0 <= i < b.len() && rule_contributes(#[trigger] b[i], s) && b[i].mode == strongest(b, s);
        assert(b.contains(b[i]));
        assert(a.contains(b[i]));
        let j = choose|j: int| 0 <= j < a.len() && a[j] == b[i];
        assert(rule_contributes(a[j], s));
    }
}

} // verus!
