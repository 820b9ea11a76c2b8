//! The rule model: a rule contributes a `WakeMode` when all of its conditions hold.

use vstd::prelude::*;

use crate::modes::WakeMode;

verus! {

/// Mirrors the shell's user-notification state: one cheap query covers presentation,
/// fullscreen, game, and locked/screensaver.
#[derive(Debug, Clone, Copy, PartialEq, Eq, Hash, Structural)]
pub enum NotifState {
    /// Locked, screensaver, or inactive fast-user-switching session.
    NotPresent,
    /// A fullscreen application (e.g. video).
    Busy,
    /// Fullscreen exclusive Direct3D: a game.
    Game,
    /// Presentation mode.
    Presentation,
    /// Normal.
    Normal,
    /// Quiet hours.
    QuietTime,
    /// A Store app running full screen.
    App,
}

impl Default for NotifState {
    fn default() -> (r: NotifState)
        ensures
            r == NotifState::Normal,
    {
        NotifState::Normal
    }
}

/// A guard evaluated against a `Snapshot`. Side-effect free.
#[derive(Debug, PartialEq, Eq)]
pub enum Condition {
    /// Any of these executable names is running (ASCII case-insensitive).
    ProcessRunning(Vec<String>),
    /// Local time window. `from`/`to` are minutes-of-day; `from > to` crosses midnight.
    TimeWindow { days: [bool; 7], from: u16, to: u16 },
    /// Holds while `now < deadline` (unix seconds). Releases at the deadline.
    ExpiryAt(u64),
    OnACPower,
    /// Battery percentage at or above this value.
    BatteryAbove(u8),
    SessionUnlocked,
    /// The current notification state is one of these.
    NotificationStateIn(Vec<NotifState>),
    ForegroundAppIn(Vec<String>),
    ForegroundAppNotIn(Vec<String>),
    Not(Box<Condition>),
    AnyOf(Vec<Condition>),
    AllOf(Vec<Condition>),
}

#[derive(Debug, PartialEq, Eq)]
pub struct Rule {
    pub id: String,
    pub name: String,
    pub enabled: bool,
    pub conditions: Vec<Condition>,
    pub mode: WakeMode,
}

#[derive(Debug, PartialEq, Eq)]
pub struct Profile {
    pub id: String,
    pub name: String,
    pub rules: Vec<Rule>,
}

/// Two conditions are the same guard: equal variant and equal field values, recursively.
pub open spec fn same_condition(a: Condition, b: Condition) -> bool
    decreases a,
{
    match (a, b) {
        (Condition::ProcessRunning(x), Condition::ProcessRunning(y)) => same_strings(x@, y@),
        (Condition::TimeWindow { days: d1, from: f1, to: t1 }, Condition::TimeWindow { days: d2, from: f2, to: t2 }) =>
            d1@ == d2@ && f1 == f2 && t1 == t2,
        (Condition::ExpiryAt(x), Condition::ExpiryAt(y)) => x == y,
        (Condition::OnACPower, Condition::OnACPower) => true,
        (Condition::BatteryAbove(x), Condition::BatteryAbove(y)) => x == y,
        (Condition::SessionUnlocked, Condition::SessionUnlocked) => true,
        (Condition::NotificationStateIn(x), Condition::NotificationStateIn(y)) => x@ == y@,
        (Condition::ForegroundAppIn(x), Condition::ForegroundAppIn(y)) => same_strings(x@, y@),
        (Condition::ForegroundAppNotIn(x), Condition::ForegroundAppNotIn(y)) => same_strings(x@, y@),
        (Condition::Not(x), Condition::Not(y)) => same_condition(*x, *y),
        (Condition::AnyOf(x), Condition::AnyOf(y)) =>
            x@.len() == y@.len() && forall|i: int| 0 <= i < x@.len() ==> same_condition(#[trigger] x@[i], y@[i]),
        (Condition::AllOf(x), Condition::AllOf(y)) =>
            x@.len() == y@.len() && forall|i: int| 0 <= i < x@.len() ==> same_condition(#[trigger] x@[i], y@[i]),
        _ => false,
    }
}

/// Two lists of strings hold the same texts in the same order.
pub open spec fn same_strings(a: Seq<String>, b: Seq<String>) -> bool {
    a.len() == b.len() && forall|i: int| 0 <= i < a.len() ==> (#[trigger] a[i])@ == b[i]@
}

/// Two lists of conditions hold the same guards in the same order.
pub open spec fn same_conditions(a: Seq<Condition>, b: Seq<Condition>) -> bool {
    a.len() == b.len() && forall|i: int| 0 <= i < a.len() ==> same_condition(#[trigger] a[i], b[i])
}

/// Two rules are the same rule: same id, name, switch, conditions and mode.
pub open spec fn same_rule(a: Rule, b: Rule) -> bool {
    &&& a.id@ == b.id@
    &&& a.name@ == b.name@
    &&& a.enabled == b.enabled
    &&& same_conditions(a.conditions@, b.conditions@)
    &&& a.mode == b.mode
}

/// Two lists of rules hold the same rules in the same order.
pub open spec fn same_rules(a: Seq<Rule>, b: Seq<Rule>) -> bool {
    a.len() == b.len() && forall|i: int| 0 <= i < a.len() ==> same_rule(#[trigger] a[i], b[i])
}

/// Two profiles are the same profile: same id, name and rules.
pub open spec fn same_profile(a: Profile, b: Profile) -> bool {
    &&& a.id@ == b.id@
    &&& a.name@ == b.name@
    &&& same_rules(a.rules@, b.rules@)
}

/// Every guard is the same guard as itself.
pub proof fn lemma_same_condition_reflexive(c: Condition)
    ensures
        same_condition(c, c),
    decreases c,
{
    match c {
        Condition::Not(x) => {
            lemma_same_condition_reflexive(*x);
        },
        Condition::AnyOf(x) => {
            assert forall|i: int| 0 <= i < x@.len() implies same_condition(#[trigger] x@[i], x@[i]) by {
                assert(decreases_to!(c => x@[i]));
                lemma_same_condition_reflexive(x@[i]);
            }
        },
        Condition::AllOf(x) => {
            assert forall|i: int| 0 <= i < x@.len() implies same_condition(#[trigger] x@[i], x@[i]) by {
                assert(decreases_to!(c => x@[i]));
                lemma_same_condition_reflexive(x@[i]);
            }
        },
        _ => {},
    }
}

/// Every profile is the same profile as itself.
pub proof fn lemma_same_profile_reflexive(p: Profile)
    ensures
        same_profile(p, p),
{
    assert forall|i: int| 0 <= i < p.rules@.len() implies same_rule(#[trigger] p.rules@[i], p.rules@[i]) by {
        let cs = p.rules@[i].conditions@;
        assert forall|k: int| 0 <= k < cs.len() implies same_condition(#[trigger] cs[k], cs[k]) by {
            lemma_same_condition_reflexive(cs[k]);
        }
    }
}

/// A copy of a list of strings.
pub fn copy_strings(v: &Vec<String>) -> (r: Vec<String>)
    ensures
        same_strings(v@, r@),
{
    let mut r: Vec<String> = Vec::new();
    let mut i: usize = 0;
    while i < v.len()
        invariant
            i <= v@.len(),
            r@.len() == i,
            forall|k: int| 0 <= k < i ==> (#[trigger] r@[k])@ == v@[k]@,
        decreases v@.len() - i,
    {
        r.push(v[i].clone());
        i = i + 1;
    }
    r
}

/// A copy of a list of notification states.
fn copy_states(v: &Vec<NotifState>) -> (r: Vec<NotifState>)
    ensures
        r@ == v@,
{
    let mut r: Vec<NotifState> = Vec::new();
    let mut i: usize = 0;
    while i < v.len()
        invariant
            i <= v@.len(),
            r@ == v@.subrange(0, i as int),
        decreases v@.len() - i,
    {
        r.push(v[i]);
        i = i + 1;
        proof {
            assert(v@.subrange(0, i as int) =~= v@.subrange(0, i - 1).push(v@[i - 1]));
        }
    }
    proof {
        assert(v@.subrange(0, i as int) =~= v@);
    }
    r
}

impl Clone for Condition {
    #[verifier::loop_isolation(false)]
    fn clone(&self) -> (r: Condition)
        ensures
            same_condition(*self, r),
        decreases self,
    {
        match self {
            Condition::ProcessRunning(v) => Condition::ProcessRunning(copy_strings(v)),
            Condition::TimeWindow { days, from, to } => Condition::TimeWindow {
                days: *days,
                from: *from,
                to: *to,
            },
            Condition::ExpiryAt(d) => Condition::ExpiryAt(*d),
            Condition::OnACPower => Condition::OnACPower,
            Condition::BatteryAbove(p) => Condition::BatteryAbove(*p),
            Condition::SessionUnlocked => Condition::SessionUnlocked,
            Condition::NotificationStateIn(v) => Condition::NotificationStateIn(copy_states(v)),
            Condition::ForegroundAppIn(v) => Condition::ForegroundAppIn(copy_strings(v)),
            Condition::ForegroundAppNotIn(v) => Condition::ForegroundAppNotIn(copy_strings(v)),
            Condition::Not(c) => Condition::Not(Box::new((**c).clone())),
            Condition::AnyOf(cs) => {
                let mut r: Vec<Condition> = Vec::new();
                let mut i: usize = 0;
                while i < cs.len()
                    invariant
                        i <= cs@.len(),
                        r@.len() == i,
                        forall|k: int| 0 <= k < i ==> same_condition(#[trigger] cs@[k], r@[k]),
                    decreases cs@.len() - i,
                {
                    proof {
                        assert(decreases_to!(*self => cs@[i as int]));
                    }
                    r.push(cs[i].clone());
                    i = i + 1;
                }
                Condition::AnyOf(r)
            },
            Condition::AllOf(cs) => {
                let mut r: Vec<Condition> = Vec::new();
                let mut i: usize = 0;
                while i < cs.len()
                    invariant
                        i <= cs@.len(),
                        r@.len() == i,
                        forall|k: int| 0 <= k < i ==> same_condition(#[trigger] cs@[k], r@[k]),
                    decreases cs@.len() - i,
                {
                    proof {
                        assert(decreases_to!(*self => cs@[i as int]));
                    }
                    r.push(cs[i].clone());
                    i = i + 1;
                }
                Condition::AllOf(r)
            },
        }
    }
}

impl Clone for Rule {
    fn clone(&self) -> (r: Rule)
        ensures
            same_rule(*self, r),
    {
        let mut conditions: Vec<Condition> = Vec::new();
        let mut i: usize = 0;
        while i < self.conditions.len()
            invariant
                i <= self.conditions@.len(),
                conditions@.len() == i,
                forall|k: int| 0 <= k < i ==> same_condition(#[trigger] self.conditions@[k], conditions@[k]),
            decreases self.conditions@.len() - i,
        {
            conditions.push(self.conditions[i].clone());
            i = i + 1;
        }
        Rule {
            id: self.id.clone(),
            name: self.name.clone(),
            enabled: self.enabled,
            conditions,
            mode: self.mode,
        }
    }
}

impl Clone for Profile {
    fn clone(&self) -> (r: Profile)
        ensures
            same_profile(*self, r),
    {
        let mut rules: Vec<Rule> = Vec::new();
        let mut i: usize = 0;
        while i < self.rules.len()
            invariant
                i <= self.rules@.len(),
                rules@.len() == i,
                forall|k: int| 0 <= k < i ==> same_rule(#[trigger] self.rules@[k], rules@[k]),
            decreases self.rules@.len() - i,
        {
            rules.push(self.rules[i].clone());
            i = i + 1;
        }
        Profile { id: self.id.clone(), name: self.name.clone(), rules }
    }
}

impl Profile {
    /// A profile with the given id and name and no rules.
    pub fn new(id: &str, name: &str) -> (p: Profile)
        ensures
            p.id@ == id@,
            p.name@ == name@,
            p.rules@.len() == 0,
    {
        Profile { id: id.to_owned(), name: name.to_owned(), rules: Vec::new() }
    }
}

} // verus!
