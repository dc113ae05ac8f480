use kmgr::ordered_map::OrderedMap;
use kmgr::profile::{AddOutcome, CreateOutcome, DeleteOutcome, ProfileError, RemoveOutcome, RenameOutcome, SwitchPlan};
use kmgr::state::{InstalledMod, KmgrState};

fn installed(name: &str, file: &str, explicit: bool, deps: &[&str], enabled: bool) -> InstalledMod {
    InstalledMod {
        name: name.to_string(),
        version: "1.0".to_string(),
        source: "modrinth".to_string(),
        filename: file.to_string(),
        download_url: format!("https://cdn.example/{}", file),
        hash: None,
        is_explicit: explicit,
        dependencies: deps.iter().map(|d| d.to_string()).collect(),
        enabled,
    }
}

fn workspace() -> KmgrState {
    let mut s = KmgrState::default();
    s.default_mc_version = "1.20.4".to_string();
    s.mod_loader = "fabric".to_string();
    s.installed_mods.insert("sodium".to_string(), installed("Sodium", "sodium.jar", true, &[], true));
    s.installed_mods.insert("iris".to_string(), installed("Iris", "iris.jar", true, &["sodium"], true));
    s.installed_mods.insert("lithium".to_string(), installed("Lithium", "lithium.jar", true, &[], true));
    s.profiles.insert("default".to_string(), vec!["sodium".to_string(), "iris".to_string(), "lithium".to_string()]);
    s
}

fn members(s: &KmgrState, p: &str) -> Option<Vec<String>> {
    s.profiles.get(p).cloned()
}

#[test]
fn create_profile_once() {
    let mut s = workspace();
    assert_eq!(s.create_profile("pvp"), CreateOutcome::Created);
    assert_eq!(members(&s, "pvp"), Some(vec![]));
    assert_eq!(s.create_profile("pvp"), CreateOutcome::AlreadyExists);
    assert_eq!(s.profiles.len(), 2);
}

#[test]
fn add_and_remove_in_active_profile() {
    let mut s = workspace();
    s.create_profile("pvp");
    s.active_profile = "pvp".to_string();
    assert_eq!(s.add_to_active_profile("Sodium"), AddOutcome::Added);
    assert_eq!(s.add_to_active_profile("sodium"), AddOutcome::AlreadyInProfile);
    assert_eq!(s.add_to_active_profile("optifine"), AddOutcome::NotInstalled);
    assert_eq!(members(&s, "pvp"), Some(vec!["sodium".to_string()]));
    assert_eq!(s.remove_from_active_profile("iris"), RemoveOutcome::NotInProfile);
    assert_eq!(s.remove_from_active_profile("optifine"), RemoveOutcome::NotInstalled);
    assert_eq!(s.remove_from_active_profile("sodium"), RemoveOutcome::Removed);
    assert_eq!(members(&s, "pvp"), Some(vec![]));
}

#[test]
fn add_without_active_profile() {
    let mut s = workspace();
    s.active_profile = "ghost".to_string();
    assert_eq!(s.add_to_active_profile("sodium"), AddOutcome::NoActiveProfile);
    assert_eq!(s.remove_from_active_profile("sodium"), RemoveOutcome::NoActiveProfile);
}

#[test]
fn delete_profile_rules() {
    let mut s = workspace();
    s.create_profile("pvp");
    assert_eq!(s.delete_profile("default"), DeleteOutcome::IsDefault);
    assert_eq!(s.delete_profile("nope"), DeleteOutcome::NotFound);
    s.active_profile = "pvp".to_string();
    assert_eq!(s.delete_profile("pvp"), DeleteOutcome::IsActive);
    s.active_profile = "default".to_string();
    assert_eq!(s.delete_profile("pvp"), DeleteOutcome::Deleted);
    assert!(members(&s, "pvp").is_none());
}

#[test]
fn rename_profile_rules_and_active_follows() {
    let mut s = workspace();
    s.create_profile("pvp");
    s.create_profile("build");
    s.active_profile = "pvp".to_string();
    assert_eq!(s.rename_profile("default", "main"), RenameOutcome::IsDefault);
    assert_eq!(s.rename_profile("nope", "main"), RenameOutcome::NotFound);
    assert_eq!(s.rename_profile("pvp", "build"), RenameOutcome::TargetExists);
    assert_eq!(s.rename_profile("pvp", "arena"), RenameOutcome::Renamed);
    assert_eq!(s.active_profile, "arena");
    assert!(members(&s, "pvp").is_none());
    assert_eq!(members(&s, "arena"), Some(vec![]));
    assert_eq!(s.rename_profile("build", "creative"), RenameOutcome::Renamed);
    assert_eq!(s.active_profile, "arena");
}

#[test]
fn switch_plan_enables_reached_and_disables_the_rest() {
    let mut s = workspace();
    s.create_profile("shaders");
    s.profiles.insert("shaders".to_string(), vec!["iris".to_string()]);
    if let Some(m) = s.installed_mods.get("sodium") {
        let mut m = m.clone();
        m.enabled = false;
        s.installed_mods.insert("sodium".to_string(), m);
    }
    let plan = s.plan_switch("shaders").unwrap();
    assert_eq!(plan.to_enable, vec!["sodium".to_string()]);
    assert_eq!(plan.to_disable, vec!["lithium".to_string()]);
    s.finish_switch("shaders", &plan, &vec![]);
    assert_eq!(s.active_profile, "shaders");
    assert!(s.installed_mods.get("iris").unwrap().enabled);
    assert!(s.installed_mods.get("sodium").unwrap().enabled);
    assert!(!s.installed_mods.get("lithium").unwrap().enabled);
}

#[test]
fn switch_keeps_the_state_of_failed_renames() {
    let mut s = workspace();
    s.create_profile("empty");
    let plan = s.plan_switch("empty").unwrap();
    assert!(plan.to_enable.is_empty());
    assert_eq!(plan.to_disable, vec!["iris".to_string(), "lithium".to_string(), "sodium".to_string()]);
    s.finish_switch("empty", &plan, &vec!["lithium".to_string()]);
    assert!(!s.installed_mods.get("iris").unwrap().enabled);
    assert!(s.installed_mods.get("lithium").unwrap().enabled);
    assert!(!s.installed_mods.get("sodium").unwrap().enabled);
}

#[test]
fn switch_to_missing_profile_is_refused() {
    let s = workspace();
    match s.plan_switch("nope") {
        Err(ProfileError::NotFound(n)) => assert_eq!(n, "nope"),
        Ok(_) => panic!("a missing profile was planned"),
    }
}

#[test]
fn create_then_delete_gives_back_the_profiles() {
    let mut s = workspace();
    let before: Vec<String> = s.profiles.keys();
    s.create_profile("tmp");
    s.delete_profile("tmp");
    assert_eq!(s.profiles.keys(), before);
}

#[test]
fn rename_round_trip_gives_back_profiles_and_active() {
    let mut s = workspace();
    s.create_profile("pvp");
    s.profiles.insert("pvp".to_string(), vec!["sodium".to_string()]);
    s.active_profile = "pvp".to_string();
    s.rename_profile("pvp", "arena");
    s.rename_profile("arena", "pvp");
    assert_eq!(s.active_profile, "pvp");
    assert_eq!(s.profiles.keys(), vec!["default".to_string(), "pvp".to_string()]);
    assert_eq!(members(&s, "pvp"), Some(vec!["sodium".to_string()]));
}

#[test]
fn add_then_remove_gives_back_the_profiles() {
    let mut s = workspace();
    s.create_profile("pvp");
    s.active_profile = "pvp".to_string();
    s.profiles.insert("pvp".to_string(), vec!["iris".to_string()]);
    s.add_to_active_profile("lithium");
    s.remove_from_active_profile("lithium");
    assert_eq!(members(&s, "pvp"), Some(vec!["iris".to_string()]));
}

#[test]
fn switch_plan_type_is_plain_data() {
    let plan = SwitchPlan { to_enable: vec!["a".to_string()], to_disable: vec![] };
    let mut s = KmgrState::default();
    s.installed_mods = OrderedMap::new();
    s.finish_switch("default", &plan, &vec![]);
    assert_eq!(s.active_profile, "default");
    assert!(s.installed_mods.is_empty());
}

#[test]
fn a_second_switch_renames_nothing() {
    let mut s = workspace();
    s.create_profile("shaders");
    s.profiles.insert("shaders".to_string(), vec!["iris".to_string()]);
    let plan = s.plan_switch("shaders").unwrap();
    s.finish_switch("shaders", &plan, &vec![]);
    let again = s.plan_switch("shaders").unwrap();
    assert!(again.to_enable.is_empty());
    assert!(again.to_disable.is_empty());
}
