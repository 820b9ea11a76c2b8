use project_mouse::modes::WakeMode;
use project_mouse::profiles::{delete, find, upsert};
use project_mouse::rule::{Condition, Profile, Rule};

fn profile(id: &str, rules: usize) -> Profile {
    let mut p = Profile::new(id, id);
    for i in 0..rules {
        p.rules.push(Rule {
            id: format!("{id}-r{i}"),
            name: "r".into(),
            enabled: true,
            conditions: vec![Condition::OnACPower],
            mode: WakeMode::KeepRunning,
        });
    }
    p
}

/// Saving the active profile must not destroy the others.
#[test]
fn upsert_replaces_by_id_and_keeps_the_others() {
    let mut list = vec![profile("work", 1), profile("home", 2), profile("kiosk", 3)];
    upsert(&mut list, profile("home", 9));

    assert_eq!(list.len(), 3, "the other profiles survived");
    assert_eq!(list[1].id, "home", "replaced in place, order preserved");
    assert_eq!(list[1].rules.len(), 9);
    assert_eq!(list[0].rules.len(), 1, "work untouched");
    assert_eq!(list[2].rules.len(), 3, "kiosk untouched");
}

#[test]
fn upsert_appends_an_unknown_id() {
    let mut list = vec![profile("work", 1)];
    upsert(&mut list, profile("new", 0));
    assert_eq!(list.len(), 2);
    assert_eq!(list[1].id, "new");
}

#[test]
fn delete_refuses_the_last_profile() {
    let mut list = vec![profile("only", 1)];
    assert!(!delete(&mut list, "only"));
    assert_eq!(list.len(), 1, "the engine must always have a profile to hold");
}

#[test]
fn delete_removes_one_of_several() {
    let mut list = vec![profile("a", 0), profile("b", 0)];
    assert!(delete(&mut list, "a"));
    assert_eq!(list.len(), 1);
    assert_eq!(list[0].id, "b");
}

#[test]
fn delete_reports_false_for_an_unknown_id() {
    let mut list = vec![profile("a", 0), profile("b", 0)];
    assert!(!delete(&mut list, "nope"));
    assert_eq!(list.len(), 2);
}

#[test]
fn find_returns_none_for_an_unknown_id() {
    let list = vec![profile("a", 0)];
    assert_eq!(find(&list, "a").map(|p| p.id.as_str()), Some("a"));
    assert!(find(&list, "b").is_none());
}

#[test]
fn an_upserted_profile_is_found_again() {
    let mut list = vec![profile("a", 0), profile("b", 1)];
    upsert(&mut list, profile("b", 4));
    assert_eq!(find(&list, "b").map(|p| p.rules.len()), Some(4));
    upsert(&mut list, profile("c", 2));
    assert_eq!(find(&list, "c").map(|p| p.rules.len()), Some(2));
}

#[test]
fn delete_from_an_empty_list_refuses() {
    let mut list: Vec<Profile> = Vec::new();
    assert!(!delete(&mut list, "a"));
    assert!(list.is_empty());
}

#[test]
fn ids_are_compared_exactly() {
    let list = vec![profile("Work", 0)];
    assert!(find(&list, "work").is_none());
}

#[test]
fn cloned_profiles_are_equal() {
    let p = profile("x", 3);
    assert_eq!(p.clone(), p);
}

#[test]
fn reading_back_an_upsert_finds_it_and_leaves_the_others() {
    let mut list = vec![profile("a", 1), profile("b", 2)];
    upsert(&mut list, profile("b", 5));
    assert_eq!(find(&list, "b").map(|p| p.rules.len()), Some(5));
    assert_eq!(find(&list, "a").map(|p| p.rules.len()), Some(1));
    upsert(&mut list, profile("c", 0));
    assert_eq!(find(&list, "c").map(|p| p.id.as_str()), Some("c"));
    assert_eq!(list.len(), 3);
}

#[test]
fn delete_never_empties_the_list_even_with_a_shared_id() {
    let mut list = vec![profile("same", 1), profile("same", 2)];
    assert!(!delete(&mut list, "same"), "removing both would leave nothing");
    assert_eq!(list.len(), 2);
    let mut list = vec![profile("same", 1), profile("other", 0), profile("same", 2)];
    assert!(delete(&mut list, "same"));
    assert_eq!(list.len(), 1);
    assert_eq!(list[0].id, "other");
}
