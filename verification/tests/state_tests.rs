use kmgr::ordered_map::OrderedMap;
use kmgr::state::{Config, InstalledMod, KmgrState, StateError, FUZZY_THRESHOLD};
use kmgr::state::{default_active_profile, default_mc_version_str, default_mod_loader_str, default_mods_folder_str, default_profiles, default_true};
use kmgr::closure::dependency_closure;

fn sample_mod(name: &str, file: &str, explicit: bool, deps: &[&str], enabled: bool) -> InstalledMod {
    InstalledMod {
        name: name.to_string(),
        version: "1.0".to_string(),
        source: "modrinth".to_string(),
        filename: file.to_string(),
        download_url: format!("https://cdn.example/{}", file),
        hash: None,
        is_explicit: explicit,
        dependencies: deps.iter().map(|d| d.to_string()).collect(),
        enabled,
    }
}

fn configured_state() -> KmgrState {
    let mut s = KmgrState::default();
    s.default_mc_version = "1.20.4".to_string();
    s.mod_loader = "fabric".to_string();
    s
}

#[test]
fn defaults_of_a_fresh_workspace() {
    assert_eq!(default_mc_version_str(), "");
    assert_eq!(default_mod_loader_str(), "");
    assert_eq!(default_mods_folder_str(), "mods");
    assert!(default_true());
    assert_eq!(default_active_profile(), "default");
    let p = default_profiles();
    assert_eq!(p.len(), 1);
    assert_eq!(p.get("default").map(|v| v.len()), Some(0));
    let s = KmgrState::default();
    assert_eq!(s.mods_folder, "mods");
    assert_eq!(s.active_profile, "default");
    assert!(s.installed_mods.is_empty());
    let c = Config::default();
    assert_eq!(c.mods_folder, "mods");
    assert_eq!(c.active_profile, "default");
}

#[test]
fn check_initialized_reports_what_is_missing() {
    let mut s = KmgrState::default();
    assert!(matches!(s.check_initialized(), Err(StateError::McVersionNotConfigured)));
    s.default_mc_version = "1.20.4".to_string();
    assert!(matches!(s.check_initialized(), Err(StateError::ModLoaderNotConfigured)));
    s.mod_loader = "fabric".to_string();
    assert!(s.check_initialized().is_ok());
    assert_eq!(
        StateError::McVersionNotConfigured.message(),
        "Minecraft version is not configured. Run `kmgr setup` or `kmgr init` first."
    );
}

#[test]
fn find_mod_id_matches_id_or_name_in_id_order() {
    let mut s = configured_state();
    s.installed_mods.insert("sodium".to_string(), sample_mod("Sodium", "sodium.jar", true, &[], true));
    s.installed_mods.insert("aaa".to_string(), sample_mod("sodium", "aaa.jar", true, &[], true));
    assert_eq!(s.find_mod_id("sodium"), Some("aaa".to_string()));
    assert_eq!(s.find_mod_id("Sodium"), Some("sodium".to_string()));
    assert_eq!(s.find_mod_id("iris"), None);
}

#[test]
fn fuzzy_lookup_prefers_exact_then_case_insensitive_then_score() {
    let mut s = configured_state();
    s.installed_mods.insert("sodium".to_string(), sample_mod("Sodium", "sodium.jar", true, &[], true));
    s.installed_mods.insert("iris".to_string(), sample_mod("Iris Shaders", "iris.jar", true, &[], true));
    let sim = vec![0u64, 0u64];
    assert_eq!(s.find_mod_id_fuzzy("sodium", &sim), Some(("sodium".to_string(), "Sodium".to_string())));
    assert_eq!(s.find_mod_id_fuzzy("IRIS SHADERS", &sim), Some(("iris".to_string(), "Iris Shaders".to_string())));
    assert_eq!(s.find_mod_id_fuzzy("shad", &sim), Some(("iris".to_string(), "Iris Shaders".to_string())));
    assert_eq!(s.find_mod_id_fuzzy("xyz", &sim), None);
    // keys in id order: iris, sodium
    let sim2 = vec![FUZZY_THRESHOLD - 1, FUZZY_THRESHOLD + 5];
    assert_eq!(s.find_mod_id_fuzzy("sodum", &sim2), Some(("sodium".to_string(), "Sodium".to_string())));
    let tie = vec![FUZZY_THRESHOLD, FUZZY_THRESHOLD];
    assert_eq!(s.find_mod_id_fuzzy("qq", &tie), Some(("iris".to_string(), "Iris Shaders".to_string())));
    // a substring match wins over any similarity: "dium" is in "sodium"
    let high = vec![FUZZY_THRESHOLD * 2 - 1, 0];
    assert_eq!(s.find_mod_id_fuzzy("dium", &high), Some(("sodium".to_string(), "Sodium".to_string())));
    let low = vec![FUZZY_THRESHOLD - 1, FUZZY_THRESHOLD - 1];
    assert_eq!(s.find_mod_id_fuzzy("zzz", &low), None);
}

#[test]
fn mod_paths_enabled_and_disabled() {
    let s = configured_state();
    assert_eq!(s.get_mod_path("sodium.jar", true), "mods/sodium.jar");
    assert_eq!(s.get_mod_path("sodium.jar", false), "mods/sodium.jar.disabled");
}

#[test]
fn loading_backfills_the_default_profile_with_explicit_mods() {
    let mut installed: OrderedMap<InstalledMod> = OrderedMap::new();
    installed.insert("sodium".to_string(), sample_mod("Sodium", "sodium.jar", true, &[], true));
    installed.insert("fabric-api".to_string(), sample_mod("Fabric API", "fabric.jar", false, &[], true));
    installed.insert("iris".to_string(), sample_mod("Iris", "iris.jar", true, &["sodium"], true));
    let s = KmgrState::from_loaded(Config::default(), installed);
    assert_eq!(s.profiles.get("default"), Some(&vec!["iris".to_string(), "sodium".to_string()]));
}

#[test]
fn loading_adds_a_missing_active_profile() {
    let mut c = Config::default();
    c.active_profile = "coop".to_string();
    let s = KmgrState::from_loaded(c, OrderedMap::new());
    assert_eq!(s.profiles.get("coop").map(|v| v.len()), Some(0));
    assert_eq!(s.profiles.len(), 2);
}

#[test]
fn set_mod_enabled_flips_only_that_flag() {
    let mut s = configured_state();
    s.installed_mods.insert("sodium".to_string(), sample_mod("Sodium", "sodium.jar", true, &[], true));
    assert!(s.set_mod_enabled("sodium", false));
    assert!(!s.installed_mods.get("sodium").unwrap().enabled);
    assert_eq!(s.installed_mods.get("sodium").unwrap().name, "Sodium");
    assert!(!s.set_mod_enabled("iris", true));
}

#[test]
fn dependency_closure_follows_installed_mods_only() {
    let mut m: OrderedMap<InstalledMod> = OrderedMap::new();
    m.insert("a".to_string(), sample_mod("A", "a.jar", true, &["b"], true));
    m.insert("b".to_string(), sample_mod("B", "b.jar", false, &["c", "x"], true));
    m.insert("c".to_string(), sample_mod("C", "c.jar", false, &["a"], true));
    m.insert("d".to_string(), sample_mod("D", "d.jar", false, &[], true));
    let mut r = dependency_closure(&m, &vec!["a".to_string(), "a".to_string()]);
    r.sort();
    assert_eq!(r, vec!["a", "b", "c", "x"]);
    let r2 = dependency_closure(&m, &vec!["nothing".to_string()]);
    assert_eq!(r2, vec!["nothing"]);
}

#[test]
fn ordered_map_keeps_keys_sorted_and_replaces_values() {
    let mut m: OrderedMap<u32> = OrderedMap::new();
    m.insert("b".to_string(), 1);
    m.insert("a".to_string(), 2);
    m.insert("c".to_string(), 3);
    m.insert("b".to_string(), 4);
    assert_eq!(m.keys(), vec!["a", "b", "c"]);
    assert_eq!(m.get("b"), Some(&4));
    assert_eq!(m.remove("a"), Some(2));
    assert_eq!(m.remove("a"), None);
    assert_eq!(m.len(), 2);
    assert_eq!(m.find("c"), Some(1));
    assert_eq!(*m.value_at(0), 4);
    assert_eq!(m.key_at(1), "c");
    m.set_value_at(1, 9);
    assert_eq!(m.into_values(), vec![4, 9]);
}

#[test]
fn disabling_then_enabling_keeps_the_record() {
    let mut s = configured_state();
    s.installed_mods.insert("sodium".to_string(), sample_mod("Sodium", "sodium.jar", true, &["x"], true));
    assert!(s.set_mod_enabled("sodium", false));
    assert_eq!(s.get_mod_path("sodium.jar", false), format!("{}.disabled", s.get_mod_path("sodium.jar", true)));
    assert!(s.set_mod_enabled("sodium", true));
    let m = s.installed_mods.get("sodium").unwrap();
    assert!(m.enabled);
    assert_eq!(m.name, "Sodium");
    assert_eq!(m.filename, "sodium.jar");
    assert_eq!(m.dependencies, vec!["x".to_string()]);
    assert!(m.is_explicit);
}

#[test]
fn fuzzy_lookup_agrees_with_exact_lookup() {
    let mut s = configured_state();
    s.installed_mods.insert("sodium".to_string(), sample_mod("Sodium", "sodium.jar", true, &[], true));
    s.installed_mods.insert("iris".to_string(), sample_mod("Iris", "iris.jar", true, &[], true));
    let sim = vec![FUZZY_THRESHOLD * 2 - 1, FUZZY_THRESHOLD * 2 - 1];
    for q in ["sodium", "Iris", "iris"] {
        let exact = s.find_mod_id(q).unwrap();
        let name = s.installed_mods.get(&exact).unwrap().name.clone();
        assert_eq!(s.find_mod_id_fuzzy(q, &sim), Some((exact, name)));
    }
}

#[test]
fn reloading_gives_back_the_saved_profiles() {
    let mut c = Config::default();
    c.active_profile = "pvp".to_string();
    c.profiles.insert("pvp".to_string(), vec!["sodium".to_string()]);
    let mut installed: OrderedMap<InstalledMod> = OrderedMap::new();
    installed.insert("sodium".to_string(), sample_mod("Sodium", "sodium.jar", true, &[], true));
    let s = KmgrState::from_loaded(c, installed);
    assert_eq!(s.profiles.keys(), vec!["default".to_string(), "pvp".to_string()]);
    assert_eq!(s.profiles.get("default").map(|v| v.len()), Some(0));
    assert_eq!(s.profiles.get("pvp"), Some(&vec!["sodium".to_string()]));
    assert_eq!(s.active_profile, "pvp");
}
