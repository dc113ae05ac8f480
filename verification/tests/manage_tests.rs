use kmgr::manage::is_yes;
use kmgr::manage::{is_confirmation, retain_other, TogglePlan};
use kmgr::state::{InstalledMod, KmgrState, StateError};

fn installed(name: &str, file: &str, explicit: bool, deps: &[&str], enabled: bool) -> InstalledMod {
    InstalledMod {
        name: name.to_string(),
        version: "1.0".to_string(),
        source: "modrinth".to_string(),
        filename: file.to_string(),
        download_url: format!("https://cdn.example/{}", file),
        hash: None,
        is_explicit: explicit,
        dependencies: deps.iter().map(|d| d.to_string()).collect(),
        enabled,
    }
}

fn workspace() -> KmgrState {
    let mut s = KmgrState::default();
    s.default_mc_version = "1.20.4".to_string();
    s.mod_loader = "fabric".to_string();
    s.installed_mods.insert("iris".to_string(), installed("Iris", "iris.jar", true, &["sodium"], true));
    s.installed_mods.insert("sodium".to_string(), installed("Sodium", "sodium.jar", false, &[], true));
    s.installed_mods.insert("fabric-api".to_string(), installed("Fabric API", "fapi.jar", false, &[], false));
    s.installed_mods.insert("zoom".to_string(), installed("Zoom", "zoom.jar", false, &["fabric-api"], true));
    s.profiles.insert("default".to_string(), vec!["iris".to_string()]);
    s
}

#[test]
fn toggling_plans_a_rename() {
    let s = workspace();
    match s.plan_toggle("sodium", false) {
        Ok(TogglePlan::Rename(from, to)) => {
            assert_eq!(from, "mods/sodium.jar");
            assert_eq!(to, "mods/sodium.jar.disabled");
        },
        _ => panic!("disabling an enabled mod renames it"),
    }
    match s.plan_toggle("fabric-api", true) {
        Ok(TogglePlan::Rename(from, to)) => {
            assert_eq!(from, "mods/fapi.jar.disabled");
            assert_eq!(to, "mods/fapi.jar");
        },
        _ => panic!("enabling a disabled mod renames it"),
    }
    assert!(matches!(s.plan_toggle("sodium", true), Ok(TogglePlan::AlreadyDone)));
    match s.plan_toggle("nope", true) {
        Err(e @ StateError::ModNotInstalled(_)) => {
            assert_eq!(e.message(), "Corrupted state: Mod ID 'nope' not found in installed list")
        },
        _ => panic!("a missing mod was toggled"),
    }
}

#[test]
fn removal_target_and_uninstall() {
    let mut s = workspace();
    assert_eq!(s.removal_target("fabric-api").unwrap(), ("fapi.jar".to_string(), "mods/fapi.jar.disabled".to_string()));
    assert!(matches!(s.removal_target("nope"), Err(StateError::ModNotInstalled(_))));
    s.create_profile("pvp");
    s.profiles.insert("pvp".to_string(), vec!["sodium".to_string(), "iris".to_string(), "sodium".to_string()]);
    s.uninstall("sodium");
    assert!(s.installed_mods.get("sodium").is_none());
    assert_eq!(s.profiles.get("pvp"), Some(&vec!["iris".to_string()]));
    assert_eq!(s.profiles.get("default"), Some(&vec!["iris".to_string()]));
    assert_eq!(s.installed_mods.len(), 3);
}

#[test]
fn ids_by_name_sorts_by_display_name() {
    let s = workspace();
    assert_eq!(
        s.ids_by_name(),
        vec!["fabric-api".to_string(), "iris".to_string(), "sodium".to_string(), "zoom".to_string()]
    );
}

#[test]
fn prune_removes_what_nothing_needs() {
    let mut s = workspace();
    let removed = s.prune();
    assert_eq!(removed.len(), 2);
    assert_eq!(removed[0].id, "fabric-api");
    assert_eq!(removed[0].name, "Fabric API");
    assert_eq!(removed[0].path, "mods/fapi.jar.disabled");
    assert_eq!(removed[1].id, "zoom");
    assert_eq!(removed[1].path, "mods/zoom.jar");
    assert_eq!(s.installed_mods.keys(), vec!["iris".to_string(), "sodium".to_string()]);
    let again = s.prune();
    assert!(again.is_empty());
}

#[test]
fn prune_keeps_what_profiles_reach() {
    let mut s = workspace();
    s.create_profile("extra");
    s.profiles.insert("extra".to_string(), vec!["zoom".to_string()]);
    let removed = s.prune();
    assert!(removed.is_empty());
    assert_eq!(s.installed_mods.len(), 4);
}

#[test]
fn confirmations() {
    assert!(is_confirmation("y"));
    assert!(is_confirmation(" YES \n"));
    assert!(!is_confirmation("n"));
    assert!(!is_confirmation(""));
    assert!(!is_confirmation("yeah"));
    assert_eq!(
        retain_other(&vec!["a".to_string(), "b".to_string(), "a".to_string()], "a"),
        vec!["b".to_string()]
    );
}

#[test]
fn yes_answers() {
    assert!(is_yes("y"));
    assert!(is_yes("yes"));
    assert!(!is_yes("Y"));
    assert!(!is_yes("no"));
}
