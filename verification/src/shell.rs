//! The decisions the tray shell makes: tooltips, command-line flags, flags forwarded by a
//! second instance, tray-menu ids and the global hotkey. The shell itself (windows, tray,
//! plugins) performs them.

use vstd::prelude::*;

use crate::modes::WakeMode;
use crate::rule::{Condition, Profile, Rule};
use crate::text::{decimal, eq_ignore_ascii_case, push_decimal, same_name, same_text};

verus! {

/// The tray tooltip for a mode.
pub open spec fn tooltip_of(mode: WakeMode) -> Seq<char> {
    match mode {
        WakeMode::Off => "project-mouse — not holding anything"@,
        WakeMode::KeepRunning => "project-mouse — keeping awake (screen may sleep)"@,
        WakeMode::KeepPresenting => "project-mouse — keeping the display on"@,
    }
}

/// The tray tooltip for a mode.
pub fn tooltip_for(mode: WakeMode) -> (r: &'static str)
    ensures
        r@ == tooltip_of(mode),
{
    match mode {
        WakeMode::Off => "project-mouse — not holding anything",
        WakeMode::KeepRunning => "project-mouse — keeping awake (screen may sleep)",
        WakeMode::KeepPresenting => "project-mouse — keeping the display on",
    }
}

/// A countdown as the tooltip shows it: seconds under a minute, minutes under an hour, then
/// hours and minutes.
pub open spec fn remaining_text(secs: u64) -> Seq<char> {
    if secs <= 59 {
        decimal(secs as nat) + "s"@
    } else if secs <= 3599 {
        decimal((secs / 60) as nat) + "m"@
    } else {
        decimal((secs / 3600) as nat) + "h "@ + decimal(((secs % 3600) / 60) as nat) + "m"@
    }
}

/// A countdown as the tooltip shows it.
pub fn fmt_remaining(secs: u64) -> (s: String)
    ensures
        s@ == remaining_text(secs),
{
    let mut s = String::new();
    if secs <= 59 {
        push_decimal(&mut s, secs);
        s.append("s");
    } else if secs <= 3599 {
        push_decimal(&mut s, secs / 60);
        s.append("m");
    } else {
        push_decimal(&mut s, secs / 3600);
        s.append("h ");
        push_decimal(&mut s, (secs % 3600) / 60);
        s.append("m");
    }
    s
}

/// The tooltip: the mode, how long a running timer has left, and a note of an update found by
/// a background check.
pub open spec fn tooltip_full(mode: WakeMode, remaining: Option<u64>, update: Option<Seq<char>>) -> Seq<char> {
    let base = match remaining {
        Some(s) => tooltip_of(mode) + " — "@ + remaining_text(s) + " left"@,
        None => tooltip_of(mode),
    };
    match update {
        Some(v) => base + "\nUpdate "@ + v + " available — tray → Check for updates"@,
        None => base,
    }
}

/// The tooltip: the mode, plus how long a running timer has left, plus an update notice.
pub fn tooltip_text(mode: WakeMode, remaining: Option<u64>, update: Option<&str>) -> (s: String)
    ensures
        s@ == tooltip_full(
            mode,
            remaining,
            match update {
                Some(v) => Some(v@),
                None => None,
            },
        ),
{
    let mut s = String::from_str(tooltip_for(mode));
    if let Some(secs) = remaining {
        s.append(" — ");
        let r = fmt_remaining(secs);
        s.append(r.as_str());
        s.append(" left");
    }
    if let Some(v) = update {
        s.append("\nUpdate ");
        s.append(v);
        s.append(" available — tray → Check for updates");
    }
    s
}

/// The tooltip while injected input is being discarded.
pub open spec fn blocked_tooltip_text() -> Seq<char> {
    "project-mouse - input blocked (an elevated window has focus)"@
}

/// The tooltip the scheduler shows: the blocked notice while enabled input is being
/// discarded, otherwise the mode with its countdown and any update notice.
pub fn tray_tooltip(blocked: bool, mode: WakeMode, remaining: Option<u64>, update: Option<&str>) -> (s: String)
    ensures
        blocked ==> s@ == blocked_tooltip_text(),
        !blocked ==> s@ == tooltip_full(
            mode,
            remaining,
            match update {
                Some(v) => Some(v@),
                None => None,
            },
        ),
{
    if blocked {
        String::from_str("project-mouse - input blocked (an elevated window has focus)")
    } else {
        tooltip_text(mode, remaining, update)
    }
}

/// The mode a `--keep` value names, ignoring ASCII case.
pub open spec fn cli_mode(s: Seq<char>) -> Option<WakeMode> {
    if same_name(s, "off"@) {
        Some(WakeMode::Off)
    } else if same_name(s, "running"@) || same_name(s, "keep_running"@) {
        Some(WakeMode::KeepRunning)
    } else if same_name(s, "presenting"@) || same_name(s, "keep_presenting"@) {
        Some(WakeMode::KeepPresenting)
    } else {
        None
    }
}

/// The mode a `--keep` value names: `off`, `running`/`keep_running` or
/// `presenting`/`keep_presenting`, in any ASCII case.
pub fn mode_from_cli(s: &str) -> (r: Option<WakeMode>)
    ensures
        r == cli_mode(s@),
{
    if eq_ignore_ascii_case(s, "off") {
        Some(WakeMode::Off)
    } else if eq_ignore_ascii_case(s, "running") || eq_ignore_ascii_case(s, "keep_running") {
        Some(WakeMode::KeepRunning)
    } else if eq_ignore_ascii_case(s, "presenting") || eq_ignore_ascii_case(s, "keep_presenting") {
        Some(WakeMode::KeepPresenting)
    } else {
        None
    }
}

/// The startup mode `--keep <mode>` asks for: the value after the first `--keep`, if there is
/// one and it names a mode.
pub open spec fn keep_flag(args: Seq<String>) -> Option<WakeMode> {
    if exists|i: int| 0 <= i < args.len() && (#[trigger] args[i])@ == "--keep"@ {
        let i = choose|i: int|
            0 <= i < args.len() && (#[trigger] args[i])@ == "--keep"@ && forall|k: int|
                0 <= k < i ==> (#[trigger] args[k])@ != "--keep"@;
        if i + 1 < args.len() { cli_mode(args[i + 1]@) } else { None }
    } else {
        None
    }
}

/// `--keep running|presenting|off` from the command line: the startup mode.
pub fn keep_mode_from_args(args: &Vec<String>) -> (r: Option<WakeMode>)
    ensures
        r == keep_flag(args@),
{
    let mut i: usize = 0;
    while i < args.len()
        invariant
            i <= args@.len(),
            forall|k: int| 0 <= k < i ==> (#[trigger] args@[k])@ != "--keep"@,
        decreases args@.len() - i,
    {
        if same_text(args[i].as_str(), "--keep") {
            proof {
                let j = choose|j: int|
                    0 <= j < args@.len() && (#[trigger] args@[j])@ == "--keep"@ && forall|k: int|
                        0 <= k < j ==> (#[trigger] args@[k])@ != "--keep"@;
                if j < i {
                    assert(args@[j]@ != "--keep"@);
                } else if j > i {
                    assert(args@[i as int]@ != "--keep"@);
                }
                assert(j == i);
            }
            if i + 1 < args.len() {
                return mode_from_cli(args[i + 1].as_str());
            } else {
                return None;
            }
        }
        i = i + 1;
    }
    None
}

/// The process names given with `--while-process <name>` from position `i` on; each flag
/// takes the argument after it, whatever it is.
pub open spec fn while_process_names(args: Seq<String>, i: int) -> Seq<Seq<char>>
    decreases args.len() - i,
{
    if i < 0 || i >= args.len() {
        Seq::empty()
    } else if args[i]@ == "--while-process"@ {
        if i + 1 < args.len() {
            seq![args[i + 1]@] + while_process_names(args, i + 2)
        } else {
            Seq::empty()
        }
    } else {
        while_process_names(args, i + 1)
    }
}

/// `names` joined by `sep`.
pub open spec fn joined(names: Seq<Seq<char>>, sep: Seq<char>) -> Seq<char>
    decreases names.len(),
{
    if names.len() == 0 {
        Seq::empty()
    } else if names.len() == 1 {
        names[0]
    } else {
        joined(names.drop_last(), sep) + sep + names.last()
    }
}

/// The names of a list of strings.
pub open spec fn texts(v: Seq<String>) -> Seq<Seq<char>> {
    v.map_values(|s: String| s@)
}

/// Collect the names given with `--while-process`.
fn collect_while_process(args: &Vec<String>) -> (names: Vec<String>)
    ensures
        texts(names@) == while_process_names(args@, 0),
{
    let mut names: Vec<String> = Vec::new();
    let mut i: usize = 0;
    while i < args.len()
        invariant
            i <= args@.len() + 1,
            texts(names@) + while_process_names(args@, i as int) == while_process_names(args@, 0),
        decreases args@.len() + 1 - i,
    {
        if same_text(args[i].as_str(), "--while-process") {
            if i + 1 < args.len() {
                let ghost before = names@;
                names.push(args[i + 1].clone());
                proof {
                    assert(texts(names@) =~= texts(before) + seq![args@[i + 1]@]);
                    assert(texts(names@) + while_process_names(args@, i + 2) =~= texts(before)
                        + while_process_names(args@, i as int));
                }
                i = i + 2;
            } else {
                proof {
                    assert(while_process_names(args@, (i + 1) as int) =~= Seq::<Seq<char>>::empty());
                }
                i = i + 1;
            }
        } else {
            i = i + 1;
        }
    }
    proof {
        assert(while_process_names(args@, i as int) =~= Seq::<Seq<char>>::empty());
        assert(texts(names@) + Seq::<Seq<char>>::empty() =~= texts(names@));
    }
    names
}

/// Join a list of names with a separator.
pub fn join_names(names: &Vec<String>, sep: &str) -> (s: String)
    ensures
        s@ == joined(texts(names@), sep@),
{
    let mut s = String::new();
    let mut i: usize = 0;
    while i < names.len()
        invariant
            i <= names@.len(),
            s@ == joined(texts(names@.subrange(0, i as int)), sep@),
        decreases names@.len() - i,
    {
        let ghost prev = texts(names@.subrange(0, i as int));
        if i > 0 {
            s.append(sep);
        }
        s.append(names[i].as_str());
        proof {
            let next = texts(names@.subrange(0, i + 1));
            assert(next.drop_last() =~= prev);
            assert(next.last() == names@[i as int]@);
            if i == 0 {
                assert(next =~= seq![names@[0]@]);
            }
        }
        i = i + 1;
    }
    proof {
        assert(names@.subrange(0, i as int) =~= names@);
    }
    s
}

/// The profile `--while-process <name> [--while-process <name> ...]` asks for: one enabled rule
/// keeping the machine running while any of the named processes runs. `None` without names.
pub fn profile_from_args(args: &Vec<String>) -> (r: Option<Profile>)
    ensures
        while_process_names(args@, 0).len() == 0 ==> r is None,
        while_process_names(args@, 0).len() > 0 ==> (r matches Some(p) && {
            &&& p.id@ == "cli"@
            &&& p.name@ == "CLI"@
            &&& p.rules@.len() == 1
            &&& p.rules@[0].id@ == "cli-while-process"@
            &&& p.rules@[0].name@ == "Keep running while "@ + joined(while_process_names(args@, 0), ", "@)
            &&& p.rules@[0].enabled
            &&& p.rules@[0].mode == WakeMode::KeepRunning
            &&& p.rules@[0].conditions@.len() == 1
            &&& p.rules@[0].conditions@[0] matches Condition::ProcessRunning(names)
                && texts(names@) == while_process_names(args@, 0)
        }),
{
    let names = collect_while_process(args);
    if names.len() == 0 {
        return None;
    }
    let mut p = Profile::new("cli", "CLI");
    let mut name = String::from_str("Keep running while ");
    let list = join_names(&names, ", ");
    name.append(list.as_str());
    let mut conditions: Vec<Condition> = Vec::new();
    conditions.push(Condition::ProcessRunning(names));
    p.rules.push(Rule {
        id: String::from_str("cli-while-process"),
        name,
        enabled: true,
        conditions,
        mode: WakeMode::KeepRunning,
    });
    Some(p)
}

/// What a second invocation forwards to the running instance.
#[derive(Debug, Clone, Copy, PartialEq, Eq, Structural)]
pub enum Forwarded {
    /// `--show`: open the settings window.
    Show,
    /// `--release`: set the manual mode to `Off`.
    Release,
    /// `--keep <mode>`: set the manual mode.
    Keep(WakeMode),
}

/// The commands in forwarded arguments from position `i` on. `--keep` always takes the next
/// argument, and acts only when it names a mode.
pub open spec fn forwarded_from(argv: Seq<String>, i: int) -> Seq<Forwarded>
    decreases argv.len() - i,
{
    if i < 0 || i >= argv.len() {
        Seq::empty()
    } else if argv[i]@ == "--show"@ {
        seq![Forwarded::Show] + forwarded_from(argv, i + 1)
    } else if argv[i]@ == "--release"@ {
        seq![Forwarded::Release] + forwarded_from(argv, i + 1)
    } else if argv[i]@ == "--keep"@ {
        if i + 1 < argv.len() {
            match cli_mode(argv[i + 1]@) {
                Some(m) => seq![Forwarded::Keep(m)] + forwarded_from(argv, i + 2),
                None => forwarded_from(argv, i + 2),
            }
        } else {
            Seq::empty()
        }
    } else {
        forwarded_from(argv, i + 1)
    }
}

/// The commands a second invocation's arguments carry, in order.
pub fn forwarded_commands(argv: &Vec<String>) -> (r: Vec<Forwarded>)
    ensures
        r@ == forwarded_from(argv@, 0),
{
    let mut r: Vec<Forwarded> = Vec::new();
    let mut i: usize = 0;
    while i < argv.len()
        invariant
            i <= argv@.len() + 1,
            r@ + forwarded_from(argv@, i as int) == forwarded_from(argv@, 0),
        decreases argv@.len() + 1 - i,
    {
        let a = argv[i].as_str();
        let ghost prev = r@;
        if same_text(a, "--show") {
            r.push(Forwarded::Show);
            proof {
                assert(r@ + forwarded_from(argv@, i + 1) =~= prev + forwarded_from(argv@, i as int));
            }
            i = i + 1;
        } else if same_text(a, "--release") {
            r.push(Forwarded::Release);
            proof {
                assert(r@ + forwarded_from(argv@, i + 1) =~= prev + forwarded_from(argv@, i as int));
            }
            i = i + 1;
        } else if same_text(a, "--keep") {
            if i + 1 < argv.len() {
                if let Some(m) = mode_from_cli(argv[i + 1].as_str()) {
                    r.push(Forwarded::Keep(m));
                    proof {
                        assert(r@ + forwarded_from(argv@, i + 2) =~= prev + forwarded_from(argv@, i as int));
                    }
                }
                i = i + 2;
            } else {
                proof {
                    assert(forwarded_from(argv@, i + 1) =~= Seq::<Forwarded>::empty());
                }
                i = i + 1;
            }
        } else {
            i = i + 1;
        }
    }
    proof {
        assert(forwarded_from(argv@, i as int) =~= Seq::<Forwarded>::empty());
        assert(r@ + Seq::<Forwarded>::empty() =~= r@);
    }
    r
}

/// What a tray-menu item asks for.
#[derive(Debug)]
pub enum MenuAction {
    /// Set the manual mode.
    Manual(WakeMode),
    /// Toggle launch at login.
    ToggleAutostart,
    /// Check for an update and install it.
    CheckUpdate,
    /// Release everything and exit.
    Quit,
    /// Load the profile with this id.
    SwitchProfile(String),
    /// Not a known item.
    Ignore,
}

/// The action of a tray-menu item id; `profile:<id>` switches to profile `<id>`.
pub open spec fn menu_action_spec(id: Seq<char>, r: MenuAction) -> bool {
    if id == "off"@ {
        r == MenuAction::Manual(WakeMode::Off)
    } else if id == "keep_running"@ {
        r == MenuAction::Manual(WakeMode::KeepRunning)
    } else if id == "keep_presenting"@ {
        r == MenuAction::Manual(WakeMode::KeepPresenting)
    } else if id == "autostart"@ {
        r == MenuAction::ToggleAutostart
    } else if id == "check_update"@ {
        r == MenuAction::CheckUpdate
    } else if id == "quit"@ {
        r == MenuAction::Quit
    } else if id.len() >= 8 && id.subrange(0, 8) == "profile:"@ {
        (r matches MenuAction::SwitchProfile(p) && p@ == id.subrange(8, id.len() as int))
    } else {
        r == MenuAction::Ignore
    }
}

/// The action of a tray-menu item id.
pub fn menu_action(id: &str) -> (r: MenuAction)
    ensures
        menu_action_spec(id@, r),
{
    if same_text(id, "off") {
        MenuAction::Manual(WakeMode::Off)
    } else if same_text(id, "keep_running") {
        MenuAction::Manual(WakeMode::KeepRunning)
    } else if same_text(id, "keep_presenting") {
        MenuAction::Manual(WakeMode::KeepPresenting)
    } else if same_text(id, "autostart") {
        MenuAction::ToggleAutostart
    } else if same_text(id, "check_update") {
        MenuAction::CheckUpdate
    } else if same_text(id, "quit") {
        MenuAction::Quit
    } else {
        let n = id.unicode_len();
        if n >= 8 && same_text(id.substring_char(0, 8), "profile:") {
            MenuAction::SwitchProfile(String::from_str(id.substring_char(8, n)))
        } else {
            MenuAction::Ignore
        }
    }
}

/// The global hotkey toggles between `Off` and `KeepRunning`: from any awake mode it releases.
pub fn hotkey_next(current: WakeMode) -> (r: WakeMode)
    ensures
        r == if current == WakeMode::Off { WakeMode::KeepRunning } else { WakeMode::Off },
{
    if current == WakeMode::Off {
        WakeMode::KeepRunning
    } else {
        WakeMode::Off
    }
}

/// The prefix of a Profile submenu item's id.
pub open spec fn profile_item_prefix() -> Seq<char> {
    "profile:"@
}

/// One item of the tray's Profile submenu.
#[derive(Debug)]
pub struct ProfileItem {
    /// `profile:<id>`.
    pub item_id: String,
    /// The profile's name.
    pub label: String,
    /// Whether it is the engine's profile.
    pub checked: bool,
}

/// The Profile submenu: one item per stored profile, in order, the engine's one checked.
pub fn profile_menu_items(stored: &Vec<Profile>, active_id: &str) -> (items: Vec<ProfileItem>)
    ensures
        items@.len() == stored@.len(),
        forall|i: int| 0 <= i < stored@.len() ==> {
            &&& (#[trigger] items@[i]).item_id@ == profile_item_prefix() + stored@[i].id@
            &&& items@[i].label@ == stored@[i].name@
            &&& items@[i].checked == (stored@[i].id@ == active_id@)
        },
{
    let mut items: Vec<ProfileItem> = Vec::new();
    let mut i: usize = 0;
    while i < stored.len()
        invariant
            i <= stored@.len(),
            items@.len() == i,
            forall|k: int| 0 <= k < i ==> {
                &&& (#[trigger] items@[k]).item_id@ == profile_item_prefix() + stored@[k].id@
                &&& items@[k].label@ == stored@[k].name@
                &&& items@[k].checked == (stored@[k].id@ == active_id@)
            },
        decreases stored@.len() - i,
    {
        let p = &stored[i];
        let mut item_id = String::from_str("profile:");
        item_id.append(p.id.as_str());
        proof {
            reveal_strlit("profile:");
        }
        let checked = same_text(p.id.as_str(), active_id);
        items.push(ProfileItem { item_id, label: p.name.clone(), checked });
        i = i + 1;
    }
    items
}

/// A Profile submenu item, clicked, switches to the profile it was made for.
pub proof fn lemma_profile_item_round_trip(id: Seq<char>, r: MenuAction)
    requires
        menu_action_spec(profile_item_prefix() + id, r),
    ensures
        r matches MenuAction::SwitchProfile(p) && p@ == id,
{
    reveal_strlit("profile:");
    reveal_strlit("off");
    reveal_strlit("keep_running");
    reveal_strlit("keep_presenting");
    reveal_strlit("autostart");
    reveal_strlit("check_update");
    reveal_strlit("quit");
    let full = profile_item_prefix() + id;
    assert(full[0] == 'p');
    assert(full[1] == 'r');
    assert(full.subrange(0, 8) =~= "profile:"@);
    assert(full.subrange(8, full.len() as int) =~= id);
    assert(full != "off"@) by {
        assert("off"@[0] == 'o');
    }
    assert(full != "keep_running"@) by {
        assert("keep_running"@[0] == 'k');
    }
    assert(full != "keep_presenting"@) by {
        assert("keep_presenting"@[0] == 'k');
    }
    assert(full != "autostart"@) by {
        assert("autostart"@[0] == 'a');
    }
    assert(full != "check_update"@) by {
        assert("check_update"@[0] == 'c');
    }
    assert(full != "quit"@) by {
        assert("quit"@[0] == 'q');
    }
}

/// What an update check came back with.
#[derive(Debug)]
pub enum UpdateCheck {
    /// A newer version is published.
    Found(String),
    /// The running version is the newest.
    UpToDate,
    /// The check itself failed.
    Failed,
}

/// What to do with an update check's result.
#[derive(Debug)]
pub enum UpdateStep {
    /// Remember the version for the tooltip and the window; never install.
    Record(String),
    /// Download and install it.
    Install(String),
    /// Forget any version found before.
    Clear,
    /// Change nothing (the failure is only logged).
    Keep,
}

/// A background check (`auto`) only records what it found; a check the user asked for installs
/// it. Finding nothing clears the record; a failed check leaves it as it was.
pub fn update_step(auto: bool, check: UpdateCheck) -> (r: UpdateStep)
    ensures
        match check {
            UpdateCheck::Found(v) => if auto {
                r == UpdateStep::Record(v)
            } else {
                r == UpdateStep::Install(v)
            },
            UpdateCheck::UpToDate => r == UpdateStep::Clear,
            UpdateCheck::Failed => r == UpdateStep::Keep,
        },
{
    match check {
        UpdateCheck::Found(v) => if auto {
            UpdateStep::Record(v)
        } else {
            UpdateStep::Install(v)
        },
        UpdateCheck::UpToDate => UpdateStep::Clear,
        UpdateCheck::Failed => UpdateStep::Keep,
    }
}

/// Seconds between background update checks: six hours plus up to half an hour of jitter taken
/// from the tick count, so many machines do not all ask at once.
pub fn next_check_delay_secs(tick: u32) -> (r: u64)
    ensures
        r == 6 * 3600 + (tick % 1800) as int,
        6 * 3600 <= r < 6 * 3600 + 1800,
{
    6 * 3600 + (tick % 1800) as u64
}

} // verus!
