use std::path::{Path, MAIN_SEPARATOR_STR};

use project_mouse::config::{
    choose_config_location, choose_config_path, default_version, migration_for, newer_schema_message, Config, ConfigLocation, Migration,
    CURRENT_SCHEMA_VERSION,
};
use project_mouse::input_engine::InputSettings;
use project_mouse::modes::WakeMode;
use project_mouse::rule::Profile;

#[test]
fn defaults_are_off_and_power_only() {
    let c = Config::default();
    assert_eq!(c.schema_version, CURRENT_SCHEMA_VERSION);
    assert_eq!(default_version(), 2);
    assert_eq!(c.mode, WakeMode::Off);
    assert!(c.profiles.is_empty());
    assert!(c.active_profile.is_empty());
    assert!(!c.input_enabled);
    assert_eq!(c.input, InputSettings::default());
    assert!(c.auto_update);
    assert_eq!(Config::with_mode(WakeMode::KeepRunning).mode, WakeMode::KeepRunning);
}

#[test]
fn the_active_profile_is_looked_up_by_id() {
    let mut c = Config::default();
    assert!(c.active().is_none());
    c.profiles.push(Profile::new("a", "A"));
    c.profiles.push(Profile::new("b", "B"));
    c.active_profile = "b".into();
    assert_eq!(c.active().map(|p| p.name.as_str()), Some("B"));
    c.active_profile = "c".into();
    assert!(c.active().is_none());
}

#[test]
fn the_config_lives_beside_the_exe_when_it_can() {
    assert_eq!(choose_config_location(true, true), ConfigLocation::BesideExe);
    assert_eq!(choose_config_location(false, true), ConfigLocation::Roaming);
    assert_eq!(choose_config_location(false, false), ConfigLocation::BesideExe);
}

#[test]
fn versions_choose_a_migration() {
    assert_eq!(migration_for(None), Migration::StampLegacy);
    assert_eq!(migration_for(Some(0)), Migration::StampLegacy);
    assert_eq!(migration_for(Some(1)), Migration::ReadAsIs);
    assert_eq!(migration_for(Some(999)), Migration::RefuseNewer(999));
    assert_eq!(migration_for(Some(2)), Migration::ReadAsIs);
    assert_eq!(migration_for(Some(3)), Migration::RefuseNewer(3));
    assert_eq!(migration_for(Some(1u64 << 32)), Migration::StampLegacy);
    assert_eq!(migration_for(Some((1u64 << 32) + 1)), Migration::ReadAsIs);
}

#[test]
fn a_newer_schema_is_refused_by_name() {
    assert_eq!(
        newer_schema_message(999),
        "config schema v999 is newer than supported v2; refusing to load"
    );
}

#[test]
fn portable_when_exe_dir_writable() {
    let p = choose_config_path("C:/tools/pm", Some("C:/Users/x/AppData/Roaming"), true, MAIN_SEPARATOR_STR);
    assert_eq!(Path::new(&p), Path::new("C:/tools/pm/config.json"));
}

#[test]
fn roaming_when_exe_dir_readonly() {
    let p = choose_config_path("C:/Program Files/pm", Some("C:/Users/x/AppData/Roaming"), false, MAIN_SEPARATOR_STR);
    assert_eq!(Path::new(&p), Path::new("C:/Users/x/AppData/Roaming/project-mouse/config.json"));
}

#[test]
fn falls_back_beside_exe_when_no_appdata() {
    let p = choose_config_path("C:/ro/pm", None, false, MAIN_SEPARATOR_STR);
    assert_eq!(Path::new(&p), Path::new("C:/ro/pm/config.json"));
}

#[test]
fn a_trailing_separator_is_not_doubled() {
    assert_eq!(choose_config_path("C:/tools/pm/", None, true, "/"), "C:/tools/pm/config.json");
    assert_eq!(choose_config_path("C:/tools/pm/", None, true, "\\"), "C:/tools/pm/config.json");
    assert_eq!(choose_config_path("C:\\tools\\pm\\", None, true, "\\"), "C:\\tools\\pm\\config.json");
    assert_eq!(choose_config_path("", None, true, "\\"), "config.json");
}

#[test]
fn the_platform_separator_joins_the_path() {
    assert_eq!(choose_config_path("C:\\tools\\pm", None, true, "\\"), "C:\\tools\\pm\\config.json");
    assert_eq!(
        choose_config_path("C:\\Program Files\\pm", Some("C:\\Users\\x\\AppData\\Roaming"), false, "\\"),
        "C:\\Users\\x\\AppData\\Roaming\\project-mouse\\config.json"
    );
    assert_eq!(choose_config_path("/opt/pm", Some("/home/x/.config"), false, "/"), "/home/x/.config/project-mouse/config.json");
    // Where the separator is `/`, a trailing backslash is part of the name, as on Unix.
    assert_eq!(choose_config_path("dir\\", None, true, "/"), "dir\\/config.json");
}

#[test]
fn an_empty_active_id_means_no_active_profile() {
    let mut c = Config::default();
    c.profiles.push(Profile::new("", "Unnamed"));
    assert!(c.active().is_none());
}
