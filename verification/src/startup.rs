//! What the app starts with: the persisted state, overridden by the command line for this
//! launch. A config that failed to load starts `Off` and disables saving, so a file the user may
//! want to recover is never overwritten.

use vstd::prelude::*;

use crate::commands::copy_profiles;
use crate::config::Config;
use crate::engine::Engine;
use crate::input_engine::InputSettings;
use crate::modes::WakeMode;
use crate::power::PowerGuard;
use crate::profiles::{first_profile_at, has_profile, lemma_upserted_alike, same_profiles, upsert, upserted};
use crate::rule::{same_profile, Profile};

verus! {

/// What the shell keeps beside the engine after starting.
#[derive(Debug)]
pub struct Startup {
    /// Every stored profile, with the engine's profile written in.
    pub stored: Vec<Profile>,
    /// Whether saving is allowed: not after a config that failed to load.
    pub save_enabled: bool,
    /// Whether the input engine starts enabled.
    pub input_enabled: bool,
    /// The input engine's knobs.
    pub input: InputSettings,
}

/// Set the engine up from a loaded config (or the reason it failed to load), a `--keep` mode
/// and a `--while-process` profile. The manual mode is `--keep`'s, else the persisted one (`Off`
/// after a failed load); the profile is the command line's, else the persisted active one,
/// else the engine's own. The collection always holds the engine's profile.
pub fn apply_startup<G: PowerGuard>(
    engine: &mut Engine<G>,
    loaded: Result<Config, String>,
    cli_keep: Option<WakeMode>,
    cli_profile: Option<Profile>,
) -> (s: Startup)
    ensures
        final(engine).manual_mode() == match cli_keep {
            Some(m) => m,
            None => match loaded {
                Ok(c) => c.mode,
                Err(_) => WakeMode::Off,
            },
        },
        match cli_profile {
            Some(p) => final(engine).active_profile() == p,
            None => match loaded {
                Ok(c) => if c.active_profile@.len() > 0 && has_profile(c.profiles@, c.active_profile@) {
                    exists|i: int| first_profile_at(c.profiles@, c.active_profile@, i)
                        && same_profile(c.profiles@[i], final(engine).active_profile())
                } else {
                    final(engine).active_profile() == old(engine).active_profile()
                },
                Err(_) => final(engine).active_profile() == old(engine).active_profile(),
            },
        },
        s.save_enabled == loaded is Ok,
        s.input_enabled == match loaded {
            Ok(c) => c.input_enabled,
            Err(_) => false,
        },
        s.input == match loaded {
            Ok(c) => c.input,
            Err(_) => InputSettings { interval_secs: 60, idle_threshold_secs: 60, key: 0 },
        },
        same_profiles(upserted(match loaded {
            Ok(c) => c.profiles@,
            Err(_) => Seq::empty(),
        }, final(engine).active_profile()), s.stored@),
        final(engine).is_paused() == old(engine).is_paused(),
        final(engine).effective_mode() == old(engine).effective_mode(),
        final(engine).power_held() == old(engine).power_held(),
        final(engine).power_calls() == old(engine).power_calls(),
{
    let (initial_mode, mut stored, save_enabled, input_enabled, input) = match &loaded {
        Ok(c) => {
            match c.active() {
                Some(p) => engine.set_profile(p.clone()),
                None => {},
            }
            (c.mode, copy_profiles(&c.profiles), true, c.input_enabled, c.input)
        },
        Err(_) => (WakeMode::Off, Vec::new(), false, false, InputSettings::default()),
    };
    let manual = match cli_keep {
        Some(m) => m,
        None => initial_mode,
    };
    engine.set_manual(manual);
    if let Some(p) = cli_profile {
        engine.set_profile(p);
    }
    let current = engine.profile().clone();
    proof {
        let base = match loaded {
            Ok(c) => c.profiles@,
            Err(_) => Seq::empty(),
        };
        lemma_upserted_alike(base, stored@, engine.active_profile(), current);
    }
    upsert(&mut stored, current);
    Startup { stored, save_enabled, input_enabled, input }
}

} // verus!
