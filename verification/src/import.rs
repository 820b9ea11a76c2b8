//! Import a Move Mouse `Settings.xml` as a rule. The report is part of the feature: it states
//! what was imported, approximated and dropped, and the import defaults to **power only** (Keep
//! running, no synthetic input), the honest replacement for a Move Mouse jiggle.

use vstd::prelude::*;

use crate::modes::WakeMode;
use crate::rule::{Condition, Profile, Rule};
use crate::text::{decimal, eq_ignore_ascii_case, push_decimal, same_name, same_text, trim, trimmed};

verus! {

/// Whether `c` is an ASCII decimal digit.
pub open spec fn is_digit(c: char) -> bool {
    '0' <= c <= '9'
}

/// The number a run of decimal digits spells.
pub open spec fn digits_value(ds: Seq<char>) -> nat
    decreases ds.len(),
{
    if ds.len() == 0 {
        0
    } else {
        digits_value(ds.drop_last()) * 10 + (ds.last() as nat - '0' as nat) as nat
    }
}

/// A run of digits read as a 32-bit number: none when empty or too large.
pub open spec fn digits_u32(ds: Seq<char>) -> Option<u32> {
    if ds.len() > 0 && digits_value(ds) <= u32::MAX {
        Some(digits_value(ds) as u32)
    } else {
        None
    }
}

/// Reading the hours-and-minutes body of an `xs:duration` (after `PT`): digits accumulate
/// until a unit letter; `H` adds hours, `M` adds minutes, `S` is read and ignored, and any other
/// letter, or a unit with no number before it, makes the whole duration unreadable. Digits
/// after the last unit are ignored.
pub open spec fn scan_duration(cs: Seq<char>, total: int, ds: Seq<char>) -> Option<int>
    decreases cs.len(),
{
    if cs.len() == 0 {
        Some(total)
    } else {
        let c = cs[0];
        let rest = cs.drop_first();
        if is_digit(c) {
            scan_duration(rest, total, ds.push(c))
        } else {
            match digits_u32(ds) {
                None => None,
                Some(v) => if c == 'H' {
                    scan_duration(rest, total + v * 60, Seq::empty())
                } else if c == 'M' {
                    scan_duration(rest, total + v, Seq::empty())
                } else if c == 'S' {
                    scan_duration(rest, total, Seq::empty())
                } else {
                    None
                },
            }
        }
    }
}

/// The arithmetic of `scan_duration` stays within 32 bits along the way.
pub open spec fn scan_fits(cs: Seq<char>, total: int, ds: Seq<char>) -> bool
    decreases cs.len(),
{
    if cs.len() == 0 {
        true
    } else {
        let c = cs[0];
        let rest = cs.drop_first();
        if is_digit(c) {
            scan_fits(rest, total, ds.push(c))
        } else {
            match digits_u32(ds) {
                None => true,
                Some(v) => if c == 'H' {
                    v * 60 <= u32::MAX && total + v * 60 <= u32::MAX && scan_fits(rest, total + v * 60, Seq::empty())
                } else if c == 'M' {
                    total + v <= u32::MAX && scan_fits(rest, total + v, Seq::empty())
                } else if c == 'S' {
                    scan_fits(rest, total, Seq::empty())
                } else {
                    true
                },
            }
        }
    }
}

/// Whether `s`, trimmed, starts with `PT`.
pub open spec fn has_pt(s: Seq<char>) -> bool {
    trimmed(s).len() >= 2 && trimmed(s).subrange(0, 2) == "PT"@
}

/// The body of a duration after `PT`.
pub open spec fn duration_body(s: Seq<char>) -> Seq<char> {
    trimmed(s).subrange(2, trimmed(s).len() as int)
}

/// An `xs:duration` of hours and minutes (Move Mouse writes e.g. `PT18H`, `PT9H30M`) as total
/// minutes; none when it does not start with `PT` or is otherwise unreadable.
pub open spec fn duration_minutes(s: Seq<char>) -> Option<u32> {
    if has_pt(s) {
        match scan_duration(duration_body(s), 0, Seq::empty()) {
            Some(t) => Some(t as u32),
            None => None,
        }
    } else {
        None
    }
}

/// Reading `s` as a duration never overflows 32-bit minutes.
pub open spec fn duration_fits(s: Seq<char>) -> bool {
    has_pt(s) ==> scan_fits(duration_body(s), 0, Seq::empty())
}

proof fn lemma_scan_bounded(cs: Seq<char>, total: int, ds: Seq<char>)
    requires
        scan_fits(cs, total, ds),
        0 <= total <= u32::MAX,
    ensures
        scan_duration(cs, total, ds) matches Some(t) ==> total <= t <= u32::MAX,
    decreases cs.len(),
{
    if cs.len() > 0 {
        let c = cs[0];
        let rest = cs.drop_first();
        if is_digit(c) {
            lemma_scan_bounded(rest, total, ds.push(c));
        } else {
            match digits_u32(ds) {
                None => {},
                Some(v) => if c == 'H' {
                    lemma_scan_bounded(rest, total + v * 60, Seq::empty());
                } else if c == 'M' {
                    lemma_scan_bounded(rest, total + v, Seq::empty());
                } else if c == 'S' {
                    lemma_scan_bounded(rest, total, Seq::empty());
                },
            }
        }
    }
}

/// An `xs:duration` of hours and minutes as total minutes.
pub fn xs_duration_minutes(s: &str) -> (r: Option<u32>)
    requires
        duration_fits(s@),
    ensures
        r == duration_minutes(s@),
{
    let t = trim(s);
    let n = t.unicode_len();
    if n < 2 || !crate::text::same_text(t.substring_char(0, 2), "PT") {
        return None;
    }
    let body = t.substring_char(2, n);
    let m = n - 2;
    let ghost cs = body@;
    let mut total: u32 = 0;
    let mut val: u32 = 0;
    let mut big: bool = false;
    let mut count: usize = 0;
    let ghost mut ds: Seq<char> = Seq::empty();
    let mut i: usize = 0;
    proof {
        assert(cs.subrange(0, m as int) =~= cs);
        lemma_scan_bounded(cs, 0, Seq::empty());
    }
    while i < m
        invariant
            m == cs.len(),
            cs == body@,
            has_pt(s@),
            duration_body(s@) == cs,
            i <= m,
            scan_duration(cs, 0, Seq::empty()) == scan_duration(cs.subrange(i as int, m as int), total as int, ds),
            scan_fits(cs.subrange(i as int, m as int), total as int, ds),
            count == ds.len(),
            count <= i,
            forall|k: int| 0 <= k < ds.len() ==> is_digit(#[trigger] ds[k]),
            !big ==> val == digits_value(ds),
            big ==> digits_value(ds) > u32::MAX,
        decreases m - i,
    {
        let c = body.get_char(i);
        let ghost rest = cs.subrange(i + 1, m as int);
        proof {
            assert(cs.subrange(i as int, m as int)[0] == c);
            assert(cs.subrange(i as int, m as int).drop_first() =~= rest);
        }
        if '0' <= c && c <= '9' {
            let d = (c as u32) - ('0' as u32);
            proof {
                let nds = ds.push(c);
                assert(nds.drop_last() =~= ds);
                assert(digits_value(nds) == digits_value(ds) * 10 + d);
            }
            if !big {
                let nv: u64 = val as u64 * 10 + d as u64;
                if nv > 0xffff_ffff {
                    big = true;
                } else {
                    val = nv as u32;
                }
            }
            count = count + 1;
            proof {
                ds = ds.push(c);
            }
        } else {
            proof {
                let ci = cs.subrange(i as int, m as int);
                assert(ci.len() > 0);
                assert(!is_digit(c));
            }
            if count == 0 || big {
                proof {
                    assert(digits_u32(ds) is None);
                    assert(scan_duration(cs.subrange(i as int, m as int), total as int, ds) is None);
                }
                return None;
            }
            proof {
                assert(digits_u32(ds) == Some(val));
            }
            if c == 'H' {
                total = total + val * 60;
            } else if c == 'M' {
                total = total + val;
            } else if c == 'S' {
            } else {
                proof {
                    assert(scan_duration(cs.subrange(i as int, m as int), total as int, ds) is None);
                }
                return None;
            }
            val = 0;
            count = 0;
            proof {
                ds = Seq::empty();
            }
        }
        i = i + 1;
    }
    proof {
        assert(cs.subrange(m as int, m as int) =~= Seq::<char>::empty());
    }
    Some(total)
}

/// What kind of node an XML node is.
#[derive(Debug, Clone, Copy, PartialEq, Eq, Structural)]
pub enum XmlNodeKind {
    Root,
    Element,
    ProcessingInstruction,
    Comment,
    Text,
}

/// One node of a parsed XML document, as the importer reads it: all nodes come in document
/// order, each with its nesting depth (the number of nodes from it up to the document root,
/// itself included), its tag name (empty unless an element) and its text (an element's text is
/// that of its first child when that child is text).
#[derive(Debug)]
pub struct XmlNode {
    pub kind: XmlNodeKind,
    pub depth: usize,
    pub name: String,
    pub text: Option<String>,
}

/// A node as plain values.
pub struct XmlNodeView {
    pub kind: XmlNodeKind,
    pub depth: nat,
    pub name: Seq<char>,
    pub text: Option<Seq<char>>,
}

impl View for XmlNode {
    type V = XmlNodeView;

    open spec fn view(&self) -> XmlNodeView {
        XmlNodeView {
            kind: self.kind,
            depth: self.depth as nat,
            name: self.name@,
            text: match self.text {
                Some(t) => Some(t@),
                None => None,
            },
        }
    }
}

/// The nodes of a list as plain values.
pub open spec fn node_views(v: Seq<XmlNode>) -> Seq<XmlNodeView> {
    v.map_values(|n: XmlNode| n@)
}

/// The nodes the XML parser finds in a text, in document order, or its error message.
pub uninterp spec fn xml_document(text: Seq<char>) -> Result<Seq<XmlNodeView>, Seq<char>>;

/// Parse XML text into its nodes with `roxmltree::Document::parse`, listing every node of the
/// document in order (`Document::descendants`) with its kind, depth, tag name and text. The
/// contract claims only that the outcome is the one `xml_document` names for this text.
#[verifier::external_body]
fn parse_document(text: &str) -> (r: Result<Vec<XmlNode>, String>)
    ensures
        match r {
            Ok(nodes) => xml_document(text@) == Ok::<Seq<XmlNodeView>, Seq<char>>(node_views(nodes@)),
            Err(e) => xml_document(text@) == Err::<Seq<XmlNodeView>, Seq<char>>(e@),
        },
{
    match roxmltree::Document::parse(text) {
        Ok(doc) => Ok(doc.descendants().map(|n| XmlNode {
            kind: match n.node_type() {
                roxmltree::NodeType::Root => XmlNodeKind::Root,
                roxmltree::NodeType::Element => XmlNodeKind::Element,
                roxmltree::NodeType::PI => XmlNodeKind::ProcessingInstruction,
                roxmltree::NodeType::Comment => XmlNodeKind::Comment,
                roxmltree::NodeType::Text => XmlNodeKind::Text,
            },
            depth: n.ancestors().count(),
            name: n.tag_name().name().to_string(),
            text: n.text().map(|t| t.to_string()),
        }).collect()),
        Err(e) => Err(e.to_string()),
    }
}

/// The first element at or after position `j`; `ns.len()` when there is none.
pub open spec fn first_element(ns: Seq<XmlNodeView>, j: int) -> int
    decreases ns.len() - j,
{
    if j < 0 || j >= ns.len() {
        ns.len() as int
    } else if ns[j].kind == XmlNodeKind::Element {
        j
    } else {
        first_element(ns, j + 1)
    }
}

/// The first position at or after `j` whose depth is at most `d`; `ns.len()` when none.
pub open spec fn end_of(ns: Seq<XmlNodeView>, d: nat, j: int) -> int
    decreases ns.len() - j,
{
    if j < 0 || j >= ns.len() {
        ns.len() as int
    } else if ns[j].depth <= d {
        j
    } else {
        end_of(ns, d, j + 1)
    }
}

/// Where the subtree of node `i` ends: its descendants are the nodes strictly between.
pub open spec fn subtree_end(ns: Seq<XmlNodeView>, i: int) -> int {
    end_of(ns, ns[i].depth, i + 1)
}

/// The first element named `name` in `[j, hi)`; `hi` when none.
pub open spec fn find_element(ns: Seq<XmlNodeView>, name: Seq<char>, j: int, hi: int) -> int
    decreases hi - j,
{
    if j >= hi {
        hi
    } else if ns[j].kind == XmlNodeKind::Element && ns[j].name == name {
        j
    } else {
        find_element(ns, name, j + 1, hi)
    }
}

/// The first element named `name` at depth `d` in `[j, hi)`; `hi` when none.
pub open spec fn find_child(ns: Seq<XmlNodeView>, name: Seq<char>, d: nat, j: int, hi: int) -> int
    decreases hi - j,
{
    if j >= hi {
        hi
    } else if ns[j].kind == XmlNodeKind::Element && ns[j].name == name && ns[j].depth == d {
        j
    } else {
        find_child(ns, name, d, j + 1, hi)
    }
}

/// A text read as a flag: "true" in any ASCII case, white space around it ignored.
pub open spec fn text_is_true(t: Seq<char>) -> bool {
    same_name(trimmed(t), "true"@)
}

/// The flag of the first element named `name` in `[j, hi)`: none when there is no such
/// element or it has no text.
pub open spec fn desc_flag(ns: Seq<XmlNodeView>, name: Seq<char>, j: int, hi: int) -> Option<bool> {
    let k = find_element(ns, name, j, hi);
    if k < hi {
        match ns[k].text {
            Some(t) => Some(text_is_true(t)),
            None => None,
        }
    } else {
        None
    }
}

/// The trimmed text of the first child element of node `i` named `name`.
pub open spec fn child_text(ns: Seq<XmlNodeView>, i: int, name: Seq<char>) -> Option<Seq<char>> {
    let hi = subtree_end(ns, i);
    let k = find_child(ns, name, ns[i].depth + 1, i + 1, hi);
    if k < hi {
        match ns[k].text {
            Some(t) => Some(trimmed(t)),
            None => None,
        }
    } else {
        None
    }
}

/// Whether the first child element of node `i` named `name` says "true".
pub open spec fn child_flag(ns: Seq<XmlNodeView>, i: int, name: Seq<char>) -> bool {
    match child_text(ns, i, name) {
        Some(v) => same_name(v, "true"@),
        None => false,
    }
}

/// The weekday flags of a blackout, Monday first.
pub open spec fn blackout_days(ns: Seq<XmlNodeView>, i: int) -> Seq<bool> {
    seq![
        child_flag(ns, i, "Monday"@),
        child_flag(ns, i, "Tuesday"@),
        child_flag(ns, i, "Wednesday"@),
        child_flag(ns, i, "Thursday"@),
        child_flag(ns, i, "Friday"@),
        child_flag(ns, i, "Saturday"@),
        child_flag(ns, i, "Sunday"@),
    ]
}

/// A child's text read as a duration in minutes.
pub open spec fn child_minutes(ns: Seq<XmlNodeView>, i: int, name: Seq<char>) -> Option<u32> {
    match child_text(ns, i, name) {
        Some(t) => duration_minutes(t),
        None => None,
    }
}

/// The minutes-of-day window of a blackout: from its start time to start plus duration, both
/// taken modulo a day; none when either is missing or unreadable.
pub open spec fn blackout_window(ns: Seq<XmlNodeView>, i: int) -> Option<(u16, u16)> {
    match (child_minutes(ns, i, "Time"@), child_minutes(ns, i, "Duration"@)) {
        (Some(start), Some(dur)) => Some(((start % 1440) as u16, ((start + dur) % 1440) as u16)),
        _ => None,
    }
}

/// The reading of a blackout's times stays within 32 bits: both texts read without overflow,
/// and their sum fits.
pub open spec fn blackout_fits(ns: Seq<XmlNodeView>, i: int) -> bool {
    &&& (child_text(ns, i, "Time"@) matches Some(t) ==> duration_fits(t))
    &&& (child_text(ns, i, "Duration"@) matches Some(t) ==> duration_fits(t))
    &&& match (child_minutes(ns, i, "Time"@), child_minutes(ns, i, "Duration"@)) {
        (Some(start), Some(dur)) => start + dur <= u32::MAX,
        _ => true,
    }
}

/// The positions in `[j, hi)` of nodes named `Blackout`, in order.
pub open spec fn blackouts(ns: Seq<XmlNodeView>, j: int, hi: int) -> Seq<int>
    decreases hi - j,
{
    if j >= hi {
        Seq::empty()
    } else {
        let rest = blackouts(ns, j + 1, hi);
        if ns[j].name == "Blackout"@ { seq![j] + rest } else { rest }
    }
}

/// Whether a name ends in `Action`.
pub open spec fn is_action_name(name: Seq<char>) -> bool {
    name.len() >= 6 && name.subrange(name.len() - 6, name.len() as int) == "Action"@
}

/// How many nodes in `[j, hi)` are named `...Action`.
pub open spec fn action_count(ns: Seq<XmlNodeView>, j: int, hi: int) -> nat
    decreases hi - j,
{
    if j >= hi {
        0
    } else {
        (if is_action_name(ns[j].name) { 1nat } else { 0nat }) + action_count(ns, j + 1, hi)
    }
}

/// Whether some node in `[j, hi)` is a Move Mouse schedule.
pub open spec fn has_schedule(ns: Seq<XmlNodeView>, j: int, hi: int) -> bool {
    exists|k: int| j <= k < hi && (ns[k].name == "SimpleSchedule"@ || ns[k].name == "AdvancedSchedule"@)
}

/// What a condition of the imported rule stands for.
pub enum ImportedGuard {
    /// Hold only while on AC power.
    OnAc,
    /// Hold only while the session is unlocked.
    Unlocked,
    /// Do not hold during this weekly window.
    Outside(Seq<bool>, u16, u16),
}

/// A condition is the guard it stands for.
pub open spec fn is_guard(c: Condition, g: ImportedGuard) -> bool {
    match g {
        ImportedGuard::OnAc => c == Condition::OnACPower,
        ImportedGuard::Unlocked => c == Condition::SessionUnlocked,
        ImportedGuard::Outside(days, from, to) => c matches Condition::Not(inner) && (*inner matches Condition::TimeWindow {
            days: d,
            from: f,
            to: t,
        } && d@ == days && f == from && t == to),
    }
}

/// The guards of the blackouts at the given positions, skipping the unreadable ones.
pub open spec fn blackout_guards(ns: Seq<XmlNodeView>, idx: Seq<int>) -> Seq<ImportedGuard>
    decreases idx.len(),
{
    if idx.len() == 0 {
        Seq::empty()
    } else {
        let k = idx.last();
        blackout_guards(ns, idx.drop_last()) + match blackout_window(ns, k) {
            Some((from, to)) => seq![ImportedGuard::Outside(blackout_days(ns, k), from, to)],
            None => Seq::empty(),
        }
    }
}

/// Each readable blackout adds one guard, in order: do not hold during its window, on the
/// weekdays it names, flag 0 being its `<Monday>`, flag 1 its `<Tuesday>` and so on to flag 6,
/// its `<Sunday>`. A blackout whose times cannot be read adds none.
pub proof fn lemma_blackout_guard_follows_the_week(ns: Seq<XmlNodeView>, idx: Seq<int>, k: int)
    ensures
        blackout_guards(ns, idx.push(k)) == match blackout_window(ns, k) {
            Some((from, to)) => blackout_guards(ns, idx).push(
                ImportedGuard::Outside(
                    seq![
                        child_flag(ns, k, "Monday"@),
                        child_flag(ns, k, "Tuesday"@),
                        child_flag(ns, k, "Wednesday"@),
                        child_flag(ns, k, "Thursday"@),
                        child_flag(ns, k, "Friday"@),
                        child_flag(ns, k, "Saturday"@),
                        child_flag(ns, k, "Sunday"@),
                    ],
                    from,
                    to,
                ),
            ),
            None => blackout_guards(ns, idx),
        },
{
    assert(idx.push(k).drop_last() =~= idx);
    assert(blackout_guards(ns, idx) + Seq::<ImportedGuard>::empty() =~= blackout_guards(ns, idx));
}

/// The report line of the blackout at position `k`.
pub open spec fn blackout_line(ns: Seq<XmlNodeView>, k: int) -> Seq<char> {
    match blackout_window(ns, k) {
        Some((from, to)) => "Blackout "@ + decimal(from as nat) + ".."@ + decimal(to as nat)
            + " (min-of-day) → do not hold during it."@,
        None => "Skipped a blackout with an unparseable Time/Duration."@,
    }
}

/// The report lines of the blackouts at the given positions.
pub open spec fn blackout_lines(ns: Seq<XmlNodeView>, idx: Seq<int>) -> Seq<Seq<char>>
    decreases idx.len(),
{
    if idx.len() == 0 {
        Seq::empty()
    } else {
        blackout_lines(ns, idx.drop_last()).push(blackout_line(ns, idx.last()))
    }
}

/// The first line of every import report.
pub open spec fn jiggle_line() -> Seq<char> {
    "Your Move Mouse jiggle is replaced by 'Keep running' — the machine stays awake with no synthetic input. Turn on input synthesis in Settings only if you need a session or presence timer that keeping awake cannot reset."@
}

/// The report line for pausing on battery.
pub open spec fn battery_line() -> Seq<char> {
    "Pause on battery → hold only while on AC power."@
}

/// The report line for continuing, or not, while locked.
pub open spec fn locked_line(active_when_locked: bool) -> Seq<char> {
    if active_when_locked {
        "Continue when locked = on → holds through a lock."@
    } else {
        "Continue when locked = off → hold only while unlocked."@
    }
}

/// The report line for actions that are not imported.
pub open spec fn actions_line(n: nat) -> Seq<char> {
    decimal(n) + " Move Mouse action(s) not imported — project-mouse is power-first; add input synthesis manually if you need it."@
}

/// The report line for schedules that are not imported.
pub open spec fn schedules_line() -> Seq<char> {
    "Schedules were not auto-mapped (Move Mouse uses Start/Stop events) — recreate the window with a weekly schedule rule if you need it."@
}

/// The refusal for a document whose root is not `<Settings>`.
pub open spec fn not_settings_text() -> Seq<char> {
    "not a Move Mouse Settings.xml (root is not <Settings>)"@
}

/// The position of the root element.
pub open spec fn root_of(ns: Seq<XmlNodeView>) -> int {
    first_element(ns, 0)
}

/// Whether the document is a Move Mouse settings file: its root element is `<Settings>`.
pub open spec fn is_settings(ns: Seq<XmlNodeView>) -> bool {
    root_of(ns) < ns.len() && ns[root_of(ns)].name == "Settings"@
}

/// Whether pausing on battery is on (missing counts as off).
pub open spec fn pause_on_battery(ns: Seq<XmlNodeView>) -> bool {
    desc_flag(ns, "PauseOnBattery"@, root_of(ns), subtree_end(ns, root_of(ns))) == Some(true)
}

/// Whether continuing while locked is on (missing counts as off).
pub open spec fn active_when_locked(ns: Seq<XmlNodeView>) -> bool {
    desc_flag(ns, "ActiveWhenLocked"@, root_of(ns), subtree_end(ns, root_of(ns))) == Some(true)
}

/// The blackouts of the settings, in document order.
pub open spec fn settings_blackouts(ns: Seq<XmlNodeView>) -> Seq<int> {
    blackouts(ns, root_of(ns), subtree_end(ns, root_of(ns)))
}

/// The guards of the imported rule, in order.
pub open spec fn imported_guards(ns: Seq<XmlNodeView>) -> Seq<ImportedGuard> {
    (if pause_on_battery(ns) { seq![ImportedGuard::OnAc] } else { Seq::empty() })
        + (if active_when_locked(ns) { Seq::empty() } else { seq![ImportedGuard::Unlocked] })
        + blackout_guards(ns, settings_blackouts(ns))
}

/// The import report, in order.
pub open spec fn import_report(ns: Seq<XmlNodeView>) -> Seq<Seq<char>> {
    let r = root_of(ns);
    let hi = subtree_end(ns, r);
    let n = action_count(ns, r, hi);
    seq![jiggle_line()]
        + (if pause_on_battery(ns) { seq![battery_line()] } else { Seq::empty() })
        + seq![locked_line(active_when_locked(ns))]
        + blackout_lines(ns, settings_blackouts(ns))
        + (if n > 0 { seq![actions_line(n)] } else { Seq::empty() })
        + (if has_schedule(ns, r, hi) { seq![schedules_line()] } else { Seq::empty() })
}

/// Every blackout of a settings document reads its times within 32 bits.
pub open spec fn import_fits(ns: Seq<XmlNodeView>) -> bool {
    is_settings(ns) ==> forall|k: int|
        0 <= k < settings_blackouts(ns).len() ==> blackout_fits(ns, #[trigger] settings_blackouts(ns)[k])
}

/// The result of an import.
#[derive(Debug)]
pub struct Imported {
    pub profile: Profile,
    /// The honest default: `false`. The jiggle becomes Keep running with no synthetic input;
    /// the user can turn synthesis on later if they need a session or presence timer.
    pub input_enabled: bool,
    pub report: Vec<String>,
}

/// An import matches the settings it was made from: one disabled Keep running rule with the
/// settings' guards, input synthesis off, and the report.
pub open spec fn imported_from(ns: Seq<XmlNodeView>, imp: Imported) -> bool {
    let guards = imported_guards(ns);
    let rule = imp.profile.rules@[0];
    &&& imp.profile.id@ == "imported"@
    &&& imp.profile.name@ == "Imported from Move Mouse"@
    &&& imp.profile.rules@.len() == 1
    &&& rule.id@ == "imported-mm"@
    &&& rule.name@ == "Imported from Move Mouse"@
    &&& !rule.enabled
    &&& rule.mode == WakeMode::KeepRunning
    &&& rule.conditions@.len() == guards.len()
    &&& forall|i: int| 0 <= i < guards.len() ==> is_guard(#[trigger] rule.conditions@[i], guards[i])
    &&& !imp.input_enabled
    &&& imp.report@.map_values(|l: String| l@) == import_report(ns)
}

/// The position of the first element.
fn first_element_index(nodes: &Vec<XmlNode>) -> (r: usize)
    ensures
        r == first_element(node_views(nodes@), 0),
{
    let ghost ns = node_views(nodes@);
    let mut j: usize = 0;
    while j < nodes.len()
        invariant
            ns == node_views(nodes@),
            j <= nodes@.len(),
            first_element(ns, 0) == first_element(ns, j as int),
        decreases nodes@.len() - j,
    {
        proof {
            assert(ns[j as int] == nodes@[j as int]@);
        }
        if nodes[j].kind == XmlNodeKind::Element {
            return j;
        }
        j = j + 1;
    }
    j
}

/// Where the subtree of node `i` ends.
fn subtree_end_index(nodes: &Vec<XmlNode>, i: usize) -> (r: usize)
    requires
        i < nodes@.len(),
    ensures
        r == subtree_end(node_views(nodes@), i as int),
        i < r <= nodes@.len(),
{
    let ghost ns = node_views(nodes@);
    let d = nodes[i].depth;
    proof {
        assert(ns[i as int] == nodes@[i as int]@);
    }
    let n = nodes.len();
    let mut j: usize = i + 1;
    while j < nodes.len() && nodes[j].depth > d
        invariant
            ns == node_views(nodes@),
            i < j <= nodes@.len(),
            d == ns[i as int].depth,
            subtree_end(ns, i as int) == end_of(ns, d as nat, j as int),
        decreases nodes@.len() - j,
    {
        proof {
            assert(ns[j as int] == nodes@[j as int]@);
        }
        j = j + 1;
    }
    proof {
        if j < nodes@.len() {
            assert(ns[j as int] == nodes@[j as int]@);
        }
    }
    j
}

/// The first element named `name` in `[lo, hi)`.
fn find_element_index(nodes: &Vec<XmlNode>, name: &str, lo: usize, hi: usize) -> (r: usize)
    requires
        lo <= hi <= nodes@.len(),
    ensures
        r == find_element(node_views(nodes@), name@, lo as int, hi as int),
        lo <= r <= hi,
{
    let ghost ns = node_views(nodes@);
    let mut j: usize = lo;
    while j < hi
        invariant
            ns == node_views(nodes@),
            lo <= j <= hi,
            hi <= nodes@.len(),
            find_element(ns, name@, lo as int, hi as int) == find_element(ns, name@, j as int, hi as int),
        decreases hi - j,
    {
        proof {
            assert(ns[j as int] == nodes@[j as int]@);
        }
        if nodes[j].kind == XmlNodeKind::Element && same_text(nodes[j].name.as_str(), name) {
            return j;
        }
        j = j + 1;
    }
    j
}

/// The first element named `name` at depth `d` in `[lo, hi)`.
fn find_child_index(nodes: &Vec<XmlNode>, name: &str, d: usize, lo: usize, hi: usize) -> (r: usize)
    requires
        lo <= hi <= nodes@.len(),
    ensures
        r == find_child(node_views(nodes@), name@, d as nat, lo as int, hi as int),
        lo <= r <= hi,
{
    let ghost ns = node_views(nodes@);
    let mut j: usize = lo;
    while j < hi
        invariant
            ns == node_views(nodes@),
            lo <= j <= hi,
            hi <= nodes@.len(),
            find_child(ns, name@, d as nat, lo as int, hi as int) == find_child(ns, name@, d as nat, j as int, hi as int),
        decreases hi - j,
    {
        proof {
            assert(ns[j as int] == nodes@[j as int]@);
        }
        if nodes[j].kind == XmlNodeKind::Element && same_text(nodes[j].name.as_str(), name)
            && nodes[j].depth == d {
            return j;
        }
        j = j + 1;
    }
    j
}

/// The flag of the first element named `name` in `[lo, hi)`.
fn desc_flag_of(nodes: &Vec<XmlNode>, name: &str, lo: usize, hi: usize) -> (r: Option<bool>)
    requires
        lo <= hi <= nodes@.len(),
    ensures
        r == desc_flag(node_views(nodes@), name@, lo as int, hi as int),
{
    let k = find_element_index(nodes, name, lo, hi);
    if k < hi {
        proof {
            assert(node_views(nodes@)[k as int] == nodes@[k as int]@);
        }
        match &nodes[k].text {
            Some(t) => Some(eq_ignore_ascii_case(trim(t.as_str()), "true")),
            None => None,
        }
    } else {
        None
    }
}

/// The trimmed text of the first child element of node `i` named `name`.
fn child_text_of(nodes: &Vec<XmlNode>, i: usize, name: &str) -> (r: Option<String>)
    requires
        i < nodes@.len(),
    ensures
        match r {
            Some(t) => child_text(node_views(nodes@), i as int, name@) == Some(t@),
            None => child_text(node_views(nodes@), i as int, name@) is None,
        },
{
    let ghost ns = node_views(nodes@);
    proof {
        assert(ns[i as int] == nodes@[i as int]@);
    }
    let n = nodes.len();
    let hi = subtree_end_index(nodes, i);
    if nodes[i].depth == usize::MAX {
        proof {
            let k = find_child(ns, name@, ns[i as int].depth + 1, i + 1, hi as int);
            lemma_find_child_depth(ns, name@, ns[i as int].depth + 1, i + 1, hi as int);
            if k < hi {
                assert(ns[k] == nodes@[k]@);
            }
        }
        return None;
    }
    let k = find_child_index(nodes, name, nodes[i].depth + 1, i + 1, hi);
    if k < hi {
        proof {
            assert(ns[k as int] == nodes@[k as int]@);
        }
        match &nodes[k].text {
            Some(t) => Some(String::from_str(trim(t.as_str()))),
            None => None,
        }
    } else {
        None
    }
}

/// A child found by `find_child` has the depth asked for.
proof fn lemma_find_child_depth(ns: Seq<XmlNodeView>, name: Seq<char>, d: nat, j: int, hi: int)
    requires
        0 <= j,
        hi <= ns.len(),
    ensures
        find_child(ns, name, d, j, hi) < hi ==> ns[find_child(ns, name, d, j, hi)].depth == d,
    decreases hi - j,
{
    if j < hi && !(ns[j].kind == XmlNodeKind::Element && ns[j].name == name && ns[j].depth == d) {
        lemma_find_child_depth(ns, name, d, j + 1, hi);
    }
}

/// Whether the first child element of node `i` named `name` says "true".
fn child_flag_of(nodes: &Vec<XmlNode>, i: usize, name: &str) -> (r: bool)
    requires
        i < nodes@.len(),
    ensures
        r == child_flag(node_views(nodes@), i as int, name@),
{
    match child_text_of(nodes, i, name) {
        Some(v) => eq_ignore_ascii_case(v.as_str(), "true"),
        None => false,
    }
}

/// The weekday flags of the blackout at node `i`.
fn blackout_days_of(nodes: &Vec<XmlNode>, i: usize) -> (r: [bool; 7])
    requires
        i < nodes@.len(),
    ensures
        r@ == blackout_days(node_views(nodes@), i as int),
{
    let days = [
        child_flag_of(nodes, i, "Monday"),
        child_flag_of(nodes, i, "Tuesday"),
        child_flag_of(nodes, i, "Wednesday"),
        child_flag_of(nodes, i, "Thursday"),
        child_flag_of(nodes, i, "Friday"),
        child_flag_of(nodes, i, "Saturday"),
        child_flag_of(nodes, i, "Sunday"),
    ];
    proof {
        assert(days@ =~= blackout_days(node_views(nodes@), i as int));
    }
    days
}

/// The minutes-of-day window of the blackout at node `i`.
fn blackout_window_of(nodes: &Vec<XmlNode>, i: usize) -> (r: Option<(u16, u16)>)
    requires
        i < nodes@.len(),
        blackout_fits(node_views(nodes@), i as int),
    ensures
        r == blackout_window(node_views(nodes@), i as int),
{
    let time = child_text_of(nodes, i, "Time");
    let duration = child_text_of(nodes, i, "Duration");
    let start = match &time {
        Some(t) => xs_duration_minutes(t.as_str()),
        None => None,
    };
    let dur = match &duration {
        Some(t) => xs_duration_minutes(t.as_str()),
        None => None,
    };
    let ghost ns = node_views(nodes@);
    proof {
        assert(child_minutes(ns, i as int, "Time"@) == start);
        assert(child_minutes(ns, i as int, "Duration"@) == dur);
    }
    match (start, dur) {
        (Some(start), Some(dur)) => {
            let from = (start % 1440) as u16;
            let to = ((start + dur) % 1440) as u16;
            Some((from, to))
        },
        _ => None,
    }
}

/// Whether reading `s` as a duration stays within 32-bit minutes.
pub fn duration_fits_check(s: &str) -> (r: bool)
    ensures
        r == duration_fits(s@),
{
    let t = trim(s);
    let n = t.unicode_len();
    if n < 2 || !same_text(t.substring_char(0, 2), "PT") {
        return true;
    }
    let body = t.substring_char(2, n);
    let m = n - 2;
    let ghost cs = body@;
    let mut total: u64 = 0;
    let mut val: u32 = 0;
    let mut big: bool = false;
    let mut count: usize = 0;
    let ghost mut ds: Seq<char> = Seq::empty();
    let mut i: usize = 0;
    proof {
        assert(cs.subrange(0, m as int) =~= cs);
    }
    while i < m
        invariant
            m == cs.len(),
            cs == body@,
            has_pt(s@),
            duration_body(s@) == cs,
            i <= m,
            total <= u32::MAX,
            scan_fits(cs, 0, Seq::empty()) == scan_fits(cs.subrange(i as int, m as int), total as int, ds),
            count == ds.len(),
            count <= i,
            !big ==> val == digits_value(ds),
            big ==> digits_value(ds) > u32::MAX,
        decreases m - i,
    {
        let c = body.get_char(i);
        proof {
            assert(cs.subrange(i as int, m as int)[0] == c);
            assert(cs.subrange(i as int, m as int).drop_first() =~= cs.subrange(i + 1, m as int));
        }
        if '0' <= c && c <= '9' {
            let d = (c as u32) - ('0' as u32);
            proof {
                let nds = ds.push(c);
                assert(nds.drop_last() =~= ds);
                assert(digits_value(nds) == digits_value(ds) * 10 + d);
            }
            if !big {
                let nv: u64 = val as u64 * 10 + d as u64;
                if nv > 0xffff_ffff {
                    big = true;
                } else {
                    val = nv as u32;
                }
            }
            count = count + 1;
            proof {
                ds = ds.push(c);
            }
        } else {
            if count == 0 || big {
                proof {
                    assert(digits_u32(ds) is None);
                }
                return true;
            }
            proof {
                assert(digits_u32(ds) == Some(val));
            }
            if c == 'H' {
                let add = val as u64 * 60;
                if add > 0xffff_ffff || total + add > 0xffff_ffff {
                    return false;
                }
                total = total + add;
            } else if c == 'M' {
                if total + val as u64 > 0xffff_ffff {
                    return false;
                }
                total = total + val as u64;
            } else if c == 'S' {
            } else {
                return true;
            }
            val = 0;
            count = 0;
            proof {
                ds = Seq::empty();
            }
        }
        i = i + 1;
    }
    proof {
        assert(cs.subrange(m as int, m as int) =~= Seq::<char>::empty());
    }
    true
}

/// Whether the blackout at node `i` reads its times within 32 bits.
fn blackout_fits_check(nodes: &Vec<XmlNode>, i: usize) -> (r: bool)
    requires
        i < nodes@.len(),
    ensures
        r == blackout_fits(node_views(nodes@), i as int),
{
    let ghost ns = node_views(nodes@);
    let time = child_text_of(nodes, i, "Time");
    let duration = child_text_of(nodes, i, "Duration");
    let start = match &time {
        Some(t) => {
            if !duration_fits_check(t.as_str()) {
                return false;
            }
            xs_duration_minutes(t.as_str())
        },
        None => None,
    };
    let dur = match &duration {
        Some(t) => {
            if !duration_fits_check(t.as_str()) {
                return false;
            }
            xs_duration_minutes(t.as_str())
        },
        None => None,
    };
    proof {
        assert(child_minutes(ns, i as int, "Time"@) == start);
        assert(child_minutes(ns, i as int, "Duration"@) == dur);
    }
    match (start, dur) {
        (Some(a), Some(b)) => a as u64 + b as u64 <= 0xffff_ffff,
        _ => true,
    }
}

/// Whether every blackout of a settings document reads its times within 32 bits.
pub fn import_fits_check(nodes: &Vec<XmlNode>) -> (r: bool)
    ensures
        r == import_fits(node_views(nodes@)),
{
    let ghost ns = node_views(nodes@);
    let root = first_element_index(nodes);
    if root >= nodes.len() {
        return true;
    }
    proof {
        assert(ns[root as int] == nodes@[root as int]@);
    }
    if !same_text(nodes[root].name.as_str(), "Settings") {
        return true;
    }
    let hi = subtree_end_index(nodes, root);
    let ghost mut idx: Seq<int> = Seq::empty();
    let mut j: usize = root;
    while j < hi
        invariant
            ns == node_views(nodes@),
            is_settings(ns),
            root == root_of(ns),
            hi == subtree_end(ns, root as int),
            root <= j <= hi <= nodes@.len(),
            idx + blackouts(ns, j as int, hi as int) == settings_blackouts(ns),
            forall|k: int| 0 <= k < idx.len() ==> blackout_fits(ns, #[trigger] idx[k]),
        decreases hi - j,
    {
        proof {
            assert(ns[j as int] == nodes@[j as int]@);
        }
        if same_text(nodes[j].name.as_str(), "Blackout") {
            if !blackout_fits_check(nodes, j) {
                proof {
                    let sb = settings_blackouts(ns);
                    assert(sb[idx.len() as int] == j as int);
                }
                return false;
            }
            proof {
                let nidx = idx.push(j as int);
                assert(nidx + blackouts(ns, j + 1, hi as int) =~= idx + blackouts(ns, j as int, hi as int));
                idx = nidx;
            }
        }
        j = j + 1;
    }
    proof {
        assert(idx =~= settings_blackouts(ns));
    }
    true
}

/// Whether a name ends in `Action`.
fn ends_in_action(name: &str) -> (r: bool)
    ensures
        r == is_action_name(name@),
{
    let n = name.unicode_len();
    n >= 6 && same_text(name.substring_char(n - 6, n), "Action")
}

/// The lines of a report as plain text.
pub open spec fn lines(v: Seq<String>) -> Seq<Seq<char>> {
    v.map_values(|l: String| l@)
}

/// Import the nodes of a Move Mouse `Settings.xml`: refused unless the root element is
/// `<Settings>`; otherwise one disabled Keep running rule guarded by what the settings ask
/// (on AC power when pausing on battery; unlocked unless continuing while locked; outside each
/// readable blackout window), input synthesis off, and a report of what was imported,
/// approximated and dropped.
pub fn import_nodes(nodes: &Vec<XmlNode>) -> (r: Result<Imported, String>)
    requires
        import_fits(node_views(nodes@)),
    ensures
        !is_settings(node_views(nodes@)) ==> (r matches Err(e) && e@ == not_settings_text()),
        is_settings(node_views(nodes@)) ==> (r matches Ok(imp) && imported_from(node_views(nodes@), imp)),
{
    let ghost ns = node_views(nodes@);
    let root = first_element_index(nodes);
    if root >= nodes.len() {
        return Err(String::from_str("not a Move Mouse Settings.xml (root is not <Settings>)"));
    }
    proof {
        assert(ns[root as int] == nodes@[root as int]@);
    }
    if !same_text(nodes[root].name.as_str(), "Settings") {
        return Err(String::from_str("not a Move Mouse Settings.xml (root is not <Settings>)"));
    }
    let hi = subtree_end_index(nodes, root);
    let mut report: Vec<String> = Vec::new();
    let mut conditions: Vec<Condition> = Vec::new();
    let ghost mut guards: Seq<ImportedGuard> = Seq::empty();

    report.push(String::from_str(
        "Your Move Mouse jiggle is replaced by 'Keep running' — the machine stays awake with no synthetic input. Turn on input synthesis in Settings only if you need a session or presence timer that keeping awake cannot reset.",
    ));
    let battery = match desc_flag_of(nodes, "PauseOnBattery", root, hi) {
        Some(b) => b,
        None => false,
    };
    if battery {
        conditions.push(Condition::OnACPower);
        report.push(String::from_str("Pause on battery → hold only while on AC power."));
        proof {
            guards = guards.push(ImportedGuard::OnAc);
        }
    }
    let locked = match desc_flag_of(nodes, "ActiveWhenLocked", root, hi) {
        Some(b) => b,
        None => false,
    };
    if locked {
        report.push(String::from_str("Continue when locked = on → holds through a lock."));
    } else {
        conditions.push(Condition::SessionUnlocked);
        report.push(String::from_str("Continue when locked = off → hold only while unlocked."));
        proof {
            guards = guards.push(ImportedGuard::Unlocked);
        }
    }
    let ghost head_lines = lines(report@);
    let ghost head_guards = guards;
    proof {
        assert(head_lines =~= seq![jiggle_line()]
            + (if pause_on_battery(ns) { seq![battery_line()] } else { Seq::empty() })
            + seq![locked_line(active_when_locked(ns))]);
        assert(head_guards =~= (if pause_on_battery(ns) { seq![ImportedGuard::OnAc] } else { Seq::empty() })
            + (if active_when_locked(ns) { Seq::empty() } else { seq![ImportedGuard::Unlocked] }));
    }

    // Blackouts become windows the rule must not hold in.
    let ghost mut idx: Seq<int> = Seq::empty();
    let mut j: usize = root;
    while j < hi
        invariant
            ns == node_views(nodes@),
            import_fits(ns),
            is_settings(ns),
            root == root_of(ns),
            hi == subtree_end(ns, root as int),
            root <= j <= hi <= nodes@.len(),
            idx + blackouts(ns, j as int, hi as int) == settings_blackouts(ns),
            lines(report@) == head_lines + blackout_lines(ns, idx),
            guards == head_guards + blackout_guards(ns, idx),
            conditions@.len() == guards.len(),
            forall|k: int| 0 <= k < guards.len() ==> is_guard(#[trigger] conditions@[k], guards[k]),
        decreases hi - j,
    {
        proof {
            assert(ns[j as int] == nodes@[j as int]@);
        }
        if same_text(nodes[j].name.as_str(), "Blackout") {
            proof {
                let sb = settings_blackouts(ns);
                assert(sb[idx.len() as int] == j as int);
                assert(blackout_fits(ns, sb[idx.len() as int]));
            }
            let ghost before_lines = lines(report@);
            let ghost before_guards = guards;
            match blackout_window_of(nodes, j) {
                Some((from, to)) => {
                    let days = blackout_days_of(nodes, j);
                    conditions.push(Condition::Not(Box::new(Condition::TimeWindow { days, from, to })));
                    let mut line = String::from_str("Blackout ");
                    push_decimal(&mut line, from as u64);
                    line.append("..");
                    push_decimal(&mut line, to as u64);
                    line.append(" (min-of-day) → do not hold during it.");
                    report.push(line);
                    proof {
                        guards = guards.push(ImportedGuard::Outside(blackout_days(ns, j as int), from, to));
                    }
                },
                None => {
                    report.push(String::from_str("Skipped a blackout with an unparseable Time/Duration."));
                },
            }
            proof {
                let nidx = idx.push(j as int);
                assert(nidx.drop_last() =~= idx);
                assert(lines(report@) =~= before_lines.push(blackout_line(ns, j as int)));
                assert(blackout_lines(ns, nidx) =~= blackout_lines(ns, idx).push(blackout_line(ns, j as int)));
                assert(lines(report@) =~= head_lines + blackout_lines(ns, nidx));
                assert(guards =~= head_guards + blackout_guards(ns, nidx));
                assert(nidx + blackouts(ns, j + 1, hi as int) =~= idx + blackouts(ns, j as int, hi as int));
                idx = nidx;
            }
        }
        j = j + 1;
    }

    // What is deliberately not translated is reported rather than guessed.
    let ghost mid_lines = lines(report@);
    let mut n_actions: usize = 0;
    let mut j: usize = root;
    while j < hi
        invariant
            ns == node_views(nodes@),
            root <= j <= hi <= nodes@.len(),
            n_actions <= j - root,
            n_actions + action_count(ns, j as int, hi as int) == action_count(ns, root as int, hi as int),
        decreases hi - j,
    {
        proof {
            assert(ns[j as int] == nodes@[j as int]@);
        }
        if ends_in_action(nodes[j].name.as_str()) {
            n_actions = n_actions + 1;
        }
        j = j + 1;
    }
    proof {
        assert(action_count(ns, hi as int, hi as int) == 0);
    }
    if n_actions > 0 {
        let mut line = String::new();
        push_decimal(&mut line, n_actions as u64);
        line.append(" Move Mouse action(s) not imported — project-mouse is power-first; add input synthesis manually if you need it.");
        report.push(line);
    }
    let ghost act_lines = lines(report@);
    proof {
        let n = action_count(ns, root as int, hi as int);
        assert(act_lines =~= mid_lines + (if n > 0 { seq![actions_line(n)] } else { Seq::empty() }));
    }
    let mut scheduled = false;
    let mut j: usize = root;
    while j < hi
        invariant
            ns == node_views(nodes@),
            root <= j <= hi <= nodes@.len(),
            scheduled == exists|k: int| root <= k < j && (ns[k].name == "SimpleSchedule"@ || ns[k].name == "AdvancedSchedule"@),
        decreases hi - j,
    {
        proof {
            assert(ns[j as int] == nodes@[j as int]@);
        }
        if same_text(nodes[j].name.as_str(), "SimpleSchedule") || same_text(nodes[j].name.as_str(), "AdvancedSchedule") {
            scheduled = true;
        }
        j = j + 1;
    }
    if scheduled {
        report.push(String::from_str(
            "Schedules were not auto-mapped (Move Mouse uses Start/Stop events) — recreate the window with a weekly schedule rule if you need it.",
        ));
    }
    proof {
        assert(idx =~= settings_blackouts(ns));
        assert(lines(report@) =~= act_lines + (if has_schedule(ns, root as int, hi as int) { seq![schedules_line()] } else { Seq::empty() }));
        assert(lines(report@) =~= import_report(ns));
        assert(guards =~= imported_guards(ns));
    }

    let mut profile = Profile::new("imported", "Imported from Move Mouse");
    profile.rules.push(Rule {
        id: String::from_str("imported-mm"),
        name: String::from_str("Imported from Move Mouse"),
        enabled: false,
        conditions,
        mode: WakeMode::KeepRunning,
    });
    Ok(Imported { profile, input_enabled: false, report })
}

/// What importing a settings text yields: the parser's refusal, prefixed; a refusal when the
/// root is not `<Settings>`; otherwise the imported rule and report.
pub open spec fn import_outcome(xml: Seq<char>, r: Result<Imported, String>) -> bool {
    match xml_document(xml) {
        Err(e) => r matches Err(m) && m@ == "invalid XML: "@ + e,
        Ok(ns) => if is_settings(ns) {
            r matches Ok(imp) && imported_from(ns, imp)
        } else {
            r matches Err(m) && m@ == not_settings_text()
        },
    }
}

/// Import a Move Mouse `Settings.xml`.
pub fn import(xml: &str) -> (r: Result<Imported, String>)
    requires
        xml_document(xml@) matches Ok(ns) ==> import_fits(ns),
    ensures
        import_outcome(xml@, r),
{
    match parse_document(xml) {
        Ok(nodes) => import_nodes(&nodes),
        Err(e) => {
            let mut m = String::from_str("invalid XML: ");
            m.append(e.as_str());
            Err(m)
        },
    }
}

/// Import a Move Mouse `Settings.xml` whose blackout times all read within 32 bits; `None`
/// for one that does not, which `import` would overflow on.
pub fn try_import(xml: &str) -> (r: Option<Result<Imported, String>>)
    ensures
        match r {
            Some(res) => import_outcome(xml@, res),
            None => xml_document(xml@) matches Ok(ns) && !import_fits(ns),
        },
{
    match parse_document(xml) {
        Ok(nodes) => {
            if !import_fits_check(&nodes) {
                return None;
            }
        },
        Err(_) => {},
    }
    Some(import(xml))
}

} // verus!
