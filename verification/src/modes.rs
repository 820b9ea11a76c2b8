//! The entire power surface of the product: three modes, ordered by strength.

use vstd::prelude::*;

verus! {

/// Declaration order is the strength order: `Off < KeepRunning < KeepPresenting`.
#[derive(Debug, Clone, Copy, PartialEq, Eq, PartialOrd, Ord, Hash, Structural)]
pub enum WakeMode {
    Off,
    KeepRunning,
    KeepPresenting,
}

/// The strength of a mode: its position in the declaration order.
pub open spec fn rank(m: WakeMode) -> nat {
    match m {
        WakeMode::Off => 0,
        WakeMode::KeepRunning => 1,
        WakeMode::KeepPresenting => 2,
    }
}

/// The stronger of two modes.
pub open spec fn stronger(a: WakeMode, b: WakeMode) -> WakeMode {
    if rank(a) >= rank(b) { a } else { b }
}

/// The maximum of a sequence of contributions; `Off` for none.
pub open spec fn combined(s: Seq<WakeMode>) -> WakeMode
    decreases s.len(),
{
    if s.len() == 0 {
        WakeMode::Off
    } else {
        stronger(combined(s.drop_last()), s.last())
    }
}

/// The `powercfg /requests` reason text of a mode.
pub open spec fn reason_text(m: WakeMode) -> Seq<char> {
    match m {
        WakeMode::Off => "project-mouse: not holding"@,
        WakeMode::KeepRunning => "project-mouse: Keep running (system awake, display may sleep)"@,
        WakeMode::KeepPresenting => "project-mouse: Keep presenting (system awake, display on)"@,
    }
}

impl Default for WakeMode {
    fn default() -> (m: WakeMode)
        ensures
            m == WakeMode::Off,
    {
        WakeMode::Off
    }
}

impl WakeMode {
    /// The strength of this mode, as a number.
    pub fn strength(self) -> (r: u8)
        ensures
            r == rank(self),
    {
        match self {
            WakeMode::Off => 0,
            WakeMode::KeepRunning => 1,
            WakeMode::KeepPresenting => 2,
        }
    }

    /// The stronger of `self` and `other`.
    pub fn max_with(self, other: WakeMode) -> (r: WakeMode)
        ensures
            r == stronger(self, other),
    {
        if self.strength() >= other.strength() {
            self
        } else {
            other
        }
    }

    /// Whether the display must be kept on: only `KeepPresenting` holds it.
    pub fn keeps_display(self) -> (r: bool)
        ensures
            r == (self == WakeMode::KeepPresenting),
    {
        match self {
            WakeMode::KeepPresenting => true,
            _ => false,
        }
    }

    /// Human-readable `powercfg /requests` reason string.
    pub fn reason(self) -> (r: &'static str)
        ensures
            r@ == reason_text(self),
    {
        proof {
            reveal_strlit("project-mouse: not holding");
            reveal_strlit("project-mouse: Keep running (system awake, display may sleep)");
            reveal_strlit("project-mouse: Keep presenting (system awake, display on)");
        }
        match self {
            WakeMode::Off => "project-mouse: not holding",
            WakeMode::KeepRunning => "project-mouse: Keep running (system awake, display may sleep)",
            WakeMode::KeepPresenting => "project-mouse: Keep presenting (system awake, display on)",
        }
    }

    /// Combine contributions by maximum. A weaker contribution can never lower a stronger one.
    /// Empty gives `Off`.
    pub fn combine(contributions: &[WakeMode]) -> (r: WakeMode)
        ensures
            r == combined(contributions@),
    {
        let mut acc = WakeMode::Off;
        let mut i: usize = 0;
        while i < contributions.len()
            invariant
                i <= contributions@.len(),
                acc == combined(contributions@.subrange(0, i as int)),
            decreases contributions@.len() - i,
        {
            proof {
                assert(contributions@.subrange(0, i + 1).drop_last()
                    =~= contributions@.subrange(0, i as int));
            }
            acc = acc.max_with(contributions[i]);
            i = i + 1;
        }
        proof {
            assert(contributions@.subrange(0, i as int) =~= contributions@);
        }
        acc
    }
}

/// The combined mode is at least as strong as every contribution, and is either `Off` or one of
/// the contributions.
pub proof fn lemma_combined_is_maximum(s: Seq<WakeMode>)
    ensures
        forall|i: int| 0 <= i < s.len() ==> rank(#[trigger] s[i]) <= rank(combined(s)),
        combined(s) == WakeMode::Off || s.contains(combined(s)),
    decreases s.len(),
{
    if s.len() > 0 {
        lemma_combined_is_maximum(s.drop_last());
        assert forall|i: int| 0 <= i < s.len() implies rank(#[trigger] s[i]) <= rank(combined(s)) by {
            if i < s.len() - 1 {
                assert(s.drop_last()[i] == s[i]);
            }
        }
        if combined(s) != WakeMode::Off {
            if combined(s) == s.last() {
                assert(s[s.len() - 1] == s.last());
            } else {
                let j = choose|j: int| 0 <= j < s.drop_last().len() && s.drop_last()[j] == combined(s.drop_last());
                assert(s[j] == combined(s));
            }
        }
    }
}

/// Adding a contribution never lowers the combined mode.
pub proof fn lemma_combine_monotone(s: Seq<WakeMode>, extra: WakeMode)
    ensures
        rank(combined(s)) <= rank(combined(s.push(extra))),
        rank(extra) <= rank(combined(s.push(extra))),
{
    assert(s.push(extra).drop_last() =~= s);
}

/// The combined mode depends only on which modes contribute, not on their order or how often
/// each occurs: two sequences holding the same modes combine alike.
pub proof fn lemma_combine_ignores_order(a: Seq<WakeMode>, b: Seq<WakeMode>)
    requires
        forall|m: WakeMode| a.contains(m) <==> b.contains(m),
    ensures
        combined(a) == combined(b),
{
    lemma_combined_is_maximum(a);
    lemma_combined_is_maximum(b);
    if combined(a) != WakeMode::Off {
        assert(b.contains(combined(a)));
        let j = choose|j: int| 0 <= j < b.len() && b[j] == combined(a);
        assert(rank(b[j]) <= rank(combined(b)));
    }
    if combined(b) != WakeMode::Off {
        assert(a.contains(combined(b)));
        let j = choose|j: int| 0 <= j < a.len() && a[j] == combined(b);
        assert(rank(a[j]) <= rank(combined(a)));
    }
}

/// Appending contributions never lowers the combined mode: the combination of `a + b` is at
/// least as strong as that of `a`, and of `b`.
pub proof fn lemma_combine_append_monotone(a: Seq<WakeMode>, b: Seq<WakeMode>)
    ensures
        rank(combined(a)) <= rank(combined(a + b)),
        rank(combined(b)) <= rank(combined(a + b)),
{
    lemma_combined_is_maximum(a);
    lemma_combined_is_maximum(b);
    lemma_combined_is_maximum(a + b);
    if combined(a) != WakeMode::Off {
        let j = choose|j: int| 0 <= j < a.len() && a[j] == combined(a);
        assert((a + b)[j] == a[j]);
    }
    if combined(b) != WakeMode::Off {
        let j = choose|j: int| 0 <= j < b.len() && b[j] == combined(b);
        assert((a + b)[a.len() + j] == b[j]);
    }
}

} // verus!
