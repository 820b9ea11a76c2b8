//! What the settings window's commands compute: the projections of engine state the UI shows,
//! and the profile bookkeeping behind switching, creating, deleting and the first-run answer.
//! The command layer itself locks shared state, persists and refreshes the tray.

use vstd::prelude::*;

use crate::engine::Engine;
use crate::input_engine::InputSettings;
use crate::config::{Config, CURRENT_SCHEMA_VERSION};
use crate::modes::WakeMode;
use crate::power::PowerGuard;
use crate::profiles::{
    delete, find, first_profile_at, has_profile, lemma_same_profiles_reflexive, lemma_upserted_alike, same_profiles,
    upsert, upserted, without_profile,
};
use crate::rule::{same_profile, same_rules, Condition, Profile, Rule};
use crate::text::{push_decimal, same_text, trim, trimmed, decimal};

verus! {

/// A mode's name on the command surface.
pub open spec fn mode_name(m: WakeMode) -> Seq<char> {
    match m {
        WakeMode::Off => "off"@,
        WakeMode::KeepRunning => "keep_running"@,
        WakeMode::KeepPresenting => "keep_presenting"@,
    }
}

/// A mode's name on the command surface.
pub fn mode_str(m: WakeMode) -> (r: &'static str)
    ensures
        r@ == mode_name(m),
{
    match m {
        WakeMode::Off => "off",
        WakeMode::KeepRunning => "keep_running",
        WakeMode::KeepPresenting => "keep_presenting",
    }
}

/// The mode a command names; anything unknown is `Off`.
pub fn mode_from_str(s: &str) -> (m: WakeMode)
    ensures
        s@ == "keep_running"@ ==> m == WakeMode::KeepRunning,
        s@ == "keep_presenting"@ ==> m == WakeMode::KeepPresenting,
        s@ != "keep_running"@ && s@ != "keep_presenting"@ ==> m == WakeMode::Off,
{
    proof {
        reveal_strlit("keep_running");
        reveal_strlit("keep_presenting");
        assert("keep_running"@[5] != "keep_presenting"@[5]);
    }
    if same_text(s, "keep_running") {
        WakeMode::KeepRunning
    } else if same_text(s, "keep_presenting") {
        WakeMode::KeepPresenting
    } else {
        WakeMode::Off
    }
}

/// The engine as the window shows it.
#[derive(Debug)]
pub struct StateView {
    pub effective_mode: String,
    pub manual_mode: String,
    pub paused: bool,
    pub profile: String,
}

/// The engine as the window shows it.
pub fn state_view<G: PowerGuard>(e: &Engine<G>) -> (v: StateView)
    ensures
        v.effective_mode@ == mode_name(e.effective_mode()),
        v.manual_mode@ == mode_name(e.manual_mode()),
        v.paused == e.is_paused(),
        v.profile@ == e.active_profile().name@,
{
    StateView {
        effective_mode: String::from_str(mode_str(e.mode())),
        manual_mode: String::from_str(mode_str(e.manual())),
        paused: e.paused(),
        profile: String::from_str(e.profile_name()),
    }
}

/// The diagnostics panel, apart from the process's own memory use.
#[derive(Debug)]
pub struct Diagnostics {
    pub effective_mode: String,
    pub system_sleep_blocked: bool,
    pub display_blocked: bool,
    pub lock_blocked: bool,
    pub reason: String,
    pub system_idle_secs: u64,
    pub human_idle_secs: u64,
    pub input_enabled: bool,
    pub input_blocked: bool,
    pub remote_session: bool,
}

/// In plain words, what a mode holds.
pub open spec fn holding_text(m: WakeMode) -> Seq<char> {
    match m {
        WakeMode::Off => "Not holding anything."@,
        WakeMode::KeepRunning => "Keeping the system awake; the screen may still sleep."@,
        WakeMode::KeepPresenting => "Keeping the system awake and the display on."@,
    }
}

/// The diagnostics for the effective mode and the input engine's readings. Input counts as
/// blocked only while it is enabled.
pub fn diagnostics_for(
    mode: WakeMode,
    system_idle_ms: u32,
    human_idle_ms: u32,
    input_enabled: bool,
    input_blocked: bool,
    remote_session: bool,
) -> (d: Diagnostics)
    ensures
        d.effective_mode@ == mode_name(mode),
        d.system_sleep_blocked == (mode != WakeMode::Off),
        d.display_blocked == (mode == WakeMode::KeepPresenting),
        d.lock_blocked == (mode == WakeMode::KeepPresenting),
        d.reason@ == holding_text(mode),
        d.system_idle_secs == system_idle_ms / 1000,
        d.human_idle_secs == human_idle_ms / 1000,
        d.input_enabled == input_enabled,
        d.input_blocked == (input_enabled && input_blocked),
        d.remote_session == remote_session,
{
    let reason = match mode {
        WakeMode::Off => String::from_str("Not holding anything."),
        WakeMode::KeepRunning => String::from_str("Keeping the system awake; the screen may still sleep."),
        WakeMode::KeepPresenting => String::from_str("Keeping the system awake and the display on."),
    };
    Diagnostics {
        effective_mode: String::from_str(mode_str(mode)),
        system_sleep_blocked: mode != WakeMode::Off,
        display_blocked: mode == WakeMode::KeepPresenting,
        lock_blocked: mode == WakeMode::KeepPresenting,
        reason,
        system_idle_secs: (system_idle_ms / 1000) as u64,
        human_idle_secs: (human_idle_ms / 1000) as u64,
        input_enabled,
        input_blocked: input_enabled && input_blocked,
        remote_session,
    }
}

/// One row of the profile list.
#[derive(Debug)]
pub struct ProfileSummary {
    pub id: String,
    pub name: String,
    pub active: bool,
    pub rule_count: usize,
}

/// The profile list as the window shows it: the stored profiles with the live one written in
/// (it may hold unsaved edits), each marked active when its id is the live one's.
pub open spec fn summaries_match(list: Seq<Profile>, live: Profile, rows: Seq<ProfileSummary>) -> bool {
    &&& rows.len() == list.len()
    &&& forall|i: int| 0 <= i < list.len() ==> {
        &&& (#[trigger] rows[i]).id@ == list[i].id@
        &&& rows[i].name@ == list[i].name@
        &&& rows[i].active == (list[i].id@ == live.id@)
        &&& rows[i].rule_count == list[i].rules@.len()
    }
}

/// A copy of a list of profiles.
pub fn copy_profiles(v: &Vec<Profile>) -> (r: Vec<Profile>)
    ensures
        r@.len() == v@.len(),
        forall|i: int| 0 <= i < v@.len() ==> same_profile(v@[i], #[trigger] r@[i]),
{
    let mut r: Vec<Profile> = Vec::new();
    let mut i: usize = 0;
    while i < v.len()
        invariant
            i <= v@.len(),
            r@.len() == i,
            forall|k: int| 0 <= k < i ==> same_profile(v@[k], #[trigger] r@[k]),
        decreases v@.len() - i,
    {
        r.push(v[i].clone());
        i = i + 1;
    }
    r
}

/// The rows of a list of profiles.
fn summarize(list: &Vec<Profile>, live_id: &str) -> (rows: Vec<ProfileSummary>)
    ensures
        rows@.len() == list@.len(),
        forall|i: int| 0 <= i < list@.len() ==> {
            &&& (#[trigger] rows@[i]).id@ == list@[i].id@
            &&& rows@[i].name@ == list@[i].name@
            &&& rows@[i].active == (list@[i].id@ == live_id@)
            &&& rows@[i].rule_count == list@[i].rules@.len()
        },
{
    let mut rows: Vec<ProfileSummary> = Vec::new();
    let mut i: usize = 0;
    while i < list.len()
        invariant
            i <= list@.len(),
            rows@.len() == i,
            forall|k: int| 0 <= k < i ==> {
                &&& (#[trigger] rows@[k]).id@ == list@[k].id@
                &&& rows@[k].name@ == list@[k].name@
                &&& rows@[k].active == (list@[k].id@ == live_id@)
                &&& rows@[k].rule_count == list@[k].rules@.len()
            },
        decreases list@.len() - i,
    {
        let p = &list[i];
        rows.push(ProfileSummary {
            id: p.id.clone(),
            name: p.name.clone(),
            active: same_text(p.id.as_str(), live_id),
            rule_count: p.rules.len(),
        });
        i = i + 1;
    }
    rows
}

/// Rows read only ids, names and rule counts, which the same profiles share.
proof fn lemma_summaries_alike(a: Seq<Profile>, b: Seq<Profile>, live: Profile, rows: Seq<ProfileSummary>)
    requires
        same_profiles(a, b),
        summaries_match(b, live, rows),
    ensures
        summaries_match(a, live, rows),
{
    assert forall|i: int| 0 <= i < a.len() implies {
        &&& (#[trigger] rows[i]).id@ == a[i].id@
        &&& rows[i].name@ == a[i].name@
        &&& rows[i].active == (a[i].id@ == live.id@)
        &&& rows[i].rule_count == a[i].rules@.len()
    } by {
        assert(same_profile(a[i], b[i]));
        assert(same_rules(a[i].rules@, b[i].rules@));
    }
}

/// The profile list: the stored profiles with the live one upserted (so unsaved edits show),
/// each row marked active when its id is the live profile's.
pub fn profile_summaries(live: &Profile, stored: &Vec<Profile>) -> (rows: Vec<ProfileSummary>)
    ensures
        summaries_match(upserted(stored@, *live), *live, rows@),
{
    let mut list = copy_profiles(stored);
    let copy = live.clone();
    let ghost copies = list@;
    let ghost c = copy;
    upsert(&mut list, copy);
    let rows = summarize(&list, live.id.as_str());
    proof {
        lemma_upserted_alike(stored@, copies, *live, c);
        assert(summaries_match(list@, *live, rows@));
        lemma_summaries_alike(upserted(stored@, *live), list@, *live, rows@);
    }
    rows
}

/// Load the profile `id` into the engine, writing the live profile back into the collection
/// first so unsaved rule edits survive the switch. Returns whether such a profile exists; the
/// engine is left alone when it does not.
pub fn switch_profile<G: PowerGuard>(engine: &mut Engine<G>, list: &mut Vec<Profile>, id: &str) -> (found: bool)
    ensures
        same_profiles(upserted(old(list)@, old(engine).active_profile()), final(list)@),
        found == has_profile(final(list)@, id@),
        found ==> exists|i: int| first_profile_at(final(list)@, id@, i)
            && same_profile(final(list)@[i], final(engine).active_profile()),
        !found ==> final(engine).active_profile() == old(engine).active_profile(),
        final(engine).manual_mode() == old(engine).manual_mode(),
        final(engine).is_paused() == old(engine).is_paused(),
        final(engine).effective_mode() == old(engine).effective_mode(),
        final(engine).power_held() == old(engine).power_held(),
        final(engine).power_calls() == old(engine).power_calls(),
{
    let live = engine.profile().clone();
    proof {
        lemma_same_profiles_reflexive(list@);
        lemma_upserted_alike(list@, list@, engine.active_profile(), live);
    }
    upsert(list, live);
    match find(list.as_slice(), id) {
        Some(p) => {
            let copy = p.clone();
            engine.set_profile(copy);
            true
        },
        None => false,
    }
}

/// The name a new profile gets: the one asked for, or "New profile" when that is blank.
pub fn new_profile_name(name: &str) -> (r: String)
    ensures
        trimmed(name@).len() == 0 ==> r@ == "New profile"@,
        trimmed(name@).len() > 0 ==> r@ == name@,
{
    if trim(name).unicode_len() == 0 {
        String::from_str("New profile")
    } else {
        String::from_str(name)
    }
}

/// The id a new profile gets from the creation time in milliseconds.
pub fn new_profile_id(millis: u64) -> (r: String)
    ensures
        r@ == "p"@ + decimal(millis as nat),
{
    let mut s = String::from_str("p");
    push_decimal(&mut s, millis);
    s
}

/// The refusal to delete the last profile.
pub open spec fn last_profile_text() -> Seq<char> {
    "that is the last profile — the app must always hold one"@
}

/// Delete the profile `id` from the collection; refused when nothing would be removed (an
/// unknown id) or nothing would remain. When the engine's active profile is the one deleted,
/// the first remaining profile is loaded.
pub fn delete_profile<G: PowerGuard>(engine: &mut Engine<G>, list: &mut Vec<Profile>, id: &str) -> (r: Result<(), String>)
    ensures
        r is Ok <==> old(list)@.len() > 1 && has_profile(old(list)@, id@) && without_profile(old(list)@, id@).len() > 0,
        r is Ok ==> final(list)@ == without_profile(old(list)@, id@),
        r is Err ==> final(list)@ == old(list)@,
        old(list)@.len() > 0 ==> final(list)@.len() > 0,
        r matches Err(e) ==> e@ == last_profile_text(),
        r is Ok && old(engine).active_profile().id@ == id@ && final(list)@.len() > 0
            ==> same_profile(final(list)@[0], final(engine).active_profile()),
        !(r is Ok && old(engine).active_profile().id@ == id@ && final(list)@.len() > 0)
            ==> final(engine).active_profile() == old(engine).active_profile(),
        final(engine).manual_mode() == old(engine).manual_mode(),
        final(engine).is_paused() == old(engine).is_paused(),
        final(engine).effective_mode() == old(engine).effective_mode(),
        final(engine).power_held() == old(engine).power_held(),
        final(engine).power_calls() == old(engine).power_calls(),
{
    if !delete(list, id) {
        return Err(String::from_str("that is the last profile — the app must always hold one"));
    }
    if same_text(engine.profile().id.as_str(), id) {
        if list.len() > 0 {
            let first = list[0].clone();
            engine.set_profile(first);
        }
    }
    Ok(())
}

/// The profile the first-run answer asks for: "long_job" gets a disabled, unnamed
/// process-bound rule to fill in; "keep_screen" gets an enabled, unconditional presenting rule;
/// anything else gets an empty default profile. Input synthesis is never touched.
pub open spec fn first_run_spec(choice: Seq<char>, p: Profile) -> bool {
    if choice == "long_job"@ {
        &&& p.id@ == "long-job"@
        &&& p.name@ == "Long job"@
        &&& p.rules@.len() == 1
        &&& p.rules@[0].id@ == "long-job-process"@
        &&& p.rules@[0].name@ == "Keep running while a process runs"@
        &&& !p.rules@[0].enabled
        &&& p.rules@[0].mode == WakeMode::KeepRunning
        &&& p.rules@[0].conditions@.len() == 1
        &&& (p.rules@[0].conditions@[0] matches Condition::ProcessRunning(names) && names@.len() == 0)
    } else if choice == "keep_screen"@ {
        &&& p.id@ == "keep-screen"@
        &&& p.name@ == "Keep a screen up"@
        &&& p.rules@.len() == 1
        &&& p.rules@[0].id@ == "keep-screen-always"@
        &&& p.rules@[0].name@ == "Keep presenting"@
        &&& p.rules@[0].enabled
        &&& p.rules@[0].mode == WakeMode::KeepPresenting
        &&& p.rules@[0].conditions@.len() == 0
    } else {
        &&& p.id@ == "default"@
        &&& p.name@ == "Default"@
        &&& p.rules@.len() == 0
    }
}

/// The profile the first-run answer asks for.
pub fn first_run_profile(choice: &str) -> (p: Profile)
    ensures
        first_run_spec(choice@, p),
{
    if same_text(choice, "long_job") {
        let mut p = Profile::new("long-job", "Long job");
        let mut conditions: Vec<Condition> = Vec::new();
        conditions.push(Condition::ProcessRunning(Vec::new()));
        p.rules.push(Rule {
            id: String::from_str("long-job-process"),
            name: String::from_str("Keep running while a process runs"),
            enabled: false,
            conditions,
            mode: WakeMode::KeepRunning,
        });
        p
    } else if same_text(choice, "keep_screen") {
        let mut p = Profile::new("keep-screen", "Keep a screen up");
        p.rules.push(Rule {
            id: String::from_str("keep-screen-always"),
            name: String::from_str("Keep presenting"),
            enabled: true,
            conditions: Vec::new(),
            mode: WakeMode::KeepPresenting,
        });
        p
    } else {
        Profile::new("default", "Default")
    }
}

/// Adopt the first-run answer: the profile it asks for is stored and loaded into the engine.
pub fn complete_first_run<G: PowerGuard>(engine: &mut Engine<G>, list: &mut Vec<Profile>, choice: &str)
    ensures
        first_run_spec(choice@, final(engine).active_profile()),
        same_profiles(upserted(old(list)@, final(engine).active_profile()), final(list)@),
        final(engine).manual_mode() == old(engine).manual_mode(),
        final(engine).is_paused() == old(engine).is_paused(),
        final(engine).effective_mode() == old(engine).effective_mode(),
        final(engine).power_held() == old(engine).power_held(),
        final(engine).power_calls() == old(engine).power_calls(),
{
    let p = first_run_profile(choice);
    let copy = p.clone();
    proof {
        lemma_same_profiles_reflexive(list@);
        lemma_upserted_alike(list@, list@, p, copy);
    }
    upsert(list, copy);
    engine.set_profile(p);
}

/// How many log lines the Activity view may ask for: 1 to 500.
pub fn log_limit(limit: usize) -> (r: usize)
    ensures
        r == if limit < 1 { 1 } else if limit > 500 { 500 } else { limit },
{
    if limit < 1 {
        1
    } else if limit > 500 {
        500
    } else {
        limit
    }
}

/// What an update check reports to the window.
#[derive(Debug)]
pub struct UpdateStatus {
    pub current: String,
    /// The version a check found, or `None`: not a promise that none exists, only that no check
    /// has found one yet.
    pub available: Option<String>,
    pub auto_check: bool,
}

/// The config to persist: the manual mode, the live profile as the active one, the stored
/// collection with the live profile written in (so saving one profile never destroys the
/// others), and the input engine's switch and knobs.
pub fn config_to_save(
    manual: WakeMode,
    live: &Profile,
    stored: &mut Vec<Profile>,
    input_enabled: bool,
    input: InputSettings,
    auto_update: bool,
) -> (c: Config)
    ensures
        c.schema_version == CURRENT_SCHEMA_VERSION,
        c.mode == manual,
        c.active_profile@ == live.id@,
        c.input_enabled == input_enabled,
        c.input == input,
        c.auto_update == auto_update,
        same_profiles(upserted(old(stored)@, *live), final(stored)@),
        same_profiles(final(stored)@, c.profiles@),
{
    let copy = live.clone();
    proof {
        lemma_same_profiles_reflexive(stored@);
        lemma_upserted_alike(stored@, stored@, *live, copy);
    }
    upsert(stored, copy);
    Config {
        schema_version: CURRENT_SCHEMA_VERSION,
        mode: manual,
        profiles: copy_profiles(stored),
        active_profile: live.id.clone(),
        input_enabled,
        input,
        auto_update,
    }
}

} // verus!
