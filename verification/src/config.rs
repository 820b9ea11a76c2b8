//! Persisted configuration: the model, where the file lives, and which migration a stored
//! schema version takes. Reading and writing the file, and the JSON itself, stay with the caller.

use vstd::prelude::*;

use crate::input_engine::InputSettings;
use crate::modes::WakeMode;
use crate::profiles::{first_index_of, first_profile_at, has_profile};
use crate::rule::Profile;
use crate::text::push_decimal;
use crate::text::decimal;

verus! {

/// The schema version this build writes.
pub const CURRENT_SCHEMA_VERSION: u32 = 2;

#[derive(Debug)]
pub struct Config {
    pub schema_version: u32,
    /// The manual override set from the tray or the settings window.
    pub mode: WakeMode,
    /// User-defined profiles (rule sets). Empty on a fresh install.
    pub profiles: Vec<Profile>,
    /// Id of the active profile, or empty for none.
    pub active_profile: String,
    /// The opt-in input engine. **Off by default.**
    pub input_enabled: bool,
    /// The input engine's knobs.
    pub input: InputSettings,
    /// Whether background update checks run.
    pub auto_update: bool,
}

/// The schema version a config file is stamped with when it is first written.
pub fn default_version() -> (v: u32)
    ensures
        v == CURRENT_SCHEMA_VERSION,
{
    CURRENT_SCHEMA_VERSION
}

impl Default for Config {
    /// The current schema, `Off`, no profiles, none active, input off with default knobs, and
    /// background update checks on.
    fn default() -> (c: Config)
        ensures
            c.schema_version == CURRENT_SCHEMA_VERSION,
            c.mode == WakeMode::Off,
            c.profiles@.len() == 0,
            c.active_profile@.len() == 0,
            !c.input_enabled,
            c.input == (InputSettings { interval_secs: 60, idle_threshold_secs: 60, key: 0 }),
            c.auto_update,
    {
        Config {
            schema_version: CURRENT_SCHEMA_VERSION,
            mode: WakeMode::Off,
            profiles: Vec::new(),
            active_profile: String::new(),
            input_enabled: false,
            input: InputSettings::default(),
            auto_update: true,
        }
    }
}

impl Config {
    /// A default config with the given manual mode.
    pub fn with_mode(mode: WakeMode) -> (c: Config)
        ensures
            c.mode == mode,
            c.schema_version == CURRENT_SCHEMA_VERSION,
            c.profiles@.len() == 0,
            c.active_profile@.len() == 0,
            !c.input_enabled,
            c.input == (InputSettings { interval_secs: 60, idle_threshold_secs: 60, key: 0 }),
            c.auto_update,
    {
        Config { mode, ..Default::default() }
    }

    /// The active profile, if one is set and exists: the first profile with its id. An empty id
    /// means no active profile.
    pub fn active(&self) -> (r: Option<&Profile>)
        ensures
            self.active_profile@.len() == 0 ==> r is None,
            self.active_profile@.len() > 0 ==> match r {
                Some(p) => exists|i: int|
                    first_profile_at(self.profiles@, self.active_profile@, i) && *p == self.profiles@[i],
                None => !has_profile(self.profiles@, self.active_profile@),
            },
    {
        if self.active_profile.as_str().unicode_len() == 0 {
            return None;
        }
        match first_index_of(self.profiles.as_slice(), self.active_profile.as_str()) {
            Some(i) => Some(&self.profiles[i]),
            None => None,
        }
    }
}

/// Where the config file goes.
#[derive(Debug, Clone, Copy, PartialEq, Eq, Structural)]
pub enum ConfigLocation {
    /// `<exe dir>/config.json`: portable, beside the executable.
    BesideExe,
    /// `<appdata>/project-mouse/config.json`: the per-user roaming directory.
    Roaming,
}

/// Portable (beside the exe) when the exe's directory is writable; otherwise roaming; falling
/// back to beside the exe when there is no per-user directory at all.
pub fn choose_config_location(exe_dir_writable: bool, has_appdata: bool) -> (r: ConfigLocation)
    ensures
        r == if exe_dir_writable || !has_appdata { ConfigLocation::BesideExe } else { ConfigLocation::Roaming },
{
    if exe_dir_writable {
        ConfigLocation::BesideExe
    } else if has_appdata {
        ConfigLocation::Roaming
    } else {
        ConfigLocation::BesideExe
    }
}

/// The name of the per-user directory the config goes in when it cannot sit beside the exe.
pub open spec fn app_dir_name() -> Seq<char> {
    "project-mouse"@
}

/// The config file's name.
pub open spec fn config_file_name() -> Seq<char> {
    "config.json"@
}

/// Whether `dir` ends in a path separator: `/`, which every platform takes, or the platform's
/// own separator `sep`.
pub open spec fn ends_in_separator(dir: Seq<char>, sep: Seq<char>) -> bool {
    dir.len() > 0 && (dir.last() == '/' || sep == seq![dir.last()])
}

/// `dir` joined with the relative `name` by the platform separator `sep`: `sep` goes between
/// them unless `dir` is empty or already ends in a separator.
pub open spec fn join_path(dir: Seq<char>, name: Seq<char>, sep: Seq<char>) -> Seq<char> {
    if dir.len() == 0 {
        name
    } else if ends_in_separator(dir, sep) {
        dir + name
    } else {
        dir + sep + name
    }
}

/// The config path `choose_config_location` picks, spelled out, with `sep` the platform's path
/// separator.
pub open spec fn config_path_spec(exe_dir: Seq<char>, appdata: Option<Seq<char>>, exe_dir_writable: bool, sep: Seq<char>) -> Seq<char> {
    match appdata {
        Some(ad) if !exe_dir_writable => join_path(join_path(ad, app_dir_name(), sep), config_file_name(), sep),
        _ => join_path(exe_dir, config_file_name(), sep),
    }
}

fn join(dir: &str, name: &str, sep: &str) -> (r: String)
    ensures
        r@ == join_path(dir@, name@, sep@),
{
    let n = dir.unicode_len();
    if n == 0 {
        return String::from_str(name);
    }
    let mut r = String::from_str(dir);
    let last = dir.get_char(n - 1);
    let trailing = last == '/' || (sep.unicode_len() == 1 && sep.get_char(0) == last);
    proof {
        if sep@ == seq![last] {
            assert(sep@[0] == last);
        }
        if sep@.len() == 1 && sep@[0] == last {
            assert(sep@ =~= seq![last]);
        }
    }
    if !trailing {
        r.append(sep);
    }
    r.append(name);
    r
}

/// The config file's path: beside the exe when its directory is writable, else under the
/// per-user directory, else beside the exe after all; joined with the platform's separator `sep`.
pub fn choose_config_path(exe_dir: &str, appdata: Option<&str>, exe_dir_writable: bool, sep: &str) -> (p: String)
    ensures
        p@ == config_path_spec(exe_dir@, match appdata {
            Some(a) => Some(a@),
            None => None,
        }, exe_dir_writable, sep@),
{
    proof {
        reveal_strlit("project-mouse");
        reveal_strlit("config.json");
    }
    match appdata {
        Some(ad) if !exe_dir_writable => {
            let dir = join(ad, "project-mouse", sep);
            join(dir.as_str(), "config.json", sep)
        },
        _ => join(exe_dir, "config.json", sep),
    }
}

/// How a stored config is brought up to the current model.
#[derive(Debug, Clone, Copy, PartialEq, Eq, Structural)]
pub enum Migration {
    /// A legacy, unversioned file: stamp it with the current version and read it, letting
    /// defaults fill whatever is missing.
    StampLegacy,
    /// A versioned file no newer than this build: read it as it is.
    ReadAsIs,
    /// Written by a newer build: refuse rather than silently lose data.
    RefuseNewer(u32),
}

/// The migration a stored version takes: 0 is a legacy file, a version up to the current one is
/// read directly, a newer one is refused. The stored number is read as a 64-bit value and cut to
/// its low 32 bits; a missing or non-numeric version counts as 0.
pub open spec fn migration_spec(stored: Option<u64>) -> Migration {
    let v = match stored {
        Some(x) => (x % 0x1_0000_0000) as u32,
        None => 0u32,
    };
    if v == 0 {
        Migration::StampLegacy
    } else if v <= CURRENT_SCHEMA_VERSION {
        Migration::ReadAsIs
    } else {
        Migration::RefuseNewer(v)
    }
}

/// The migration a stored schema version takes.
pub fn migration_for(stored: Option<u64>) -> (m: Migration)
    ensures
        m == migration_spec(stored),
{
    let v: u32 = match stored {
        Some(x) => (x % 0x1_0000_0000) as u32,
        None => 0,
    };
    if v == 0 {
        Migration::StampLegacy
    } else if v <= CURRENT_SCHEMA_VERSION {
        Migration::ReadAsIs
    } else {
        Migration::RefuseNewer(v)
    }
}

/// The refusal for a config written by a newer build.
pub open spec fn newer_schema_text(v: u32) -> Seq<char> {
    "config schema v"@ + decimal(v as nat) + " is newer than supported v"@ + decimal(
        CURRENT_SCHEMA_VERSION as nat,
    ) + "; refusing to load"@
}

/// The refusal for a config written by a newer build.
pub fn newer_schema_message(v: u32) -> (s: String)
    ensures
        s@ == newer_schema_text(v),
{
    let mut s = String::from_str("config schema v");
    push_decimal(&mut s, v as u64);
    s.append(" is newer than supported v");
    push_decimal(&mut s, CURRENT_SCHEMA_VERSION as u64);
    s.append("; refusing to load");
    s
}

} // verus!
