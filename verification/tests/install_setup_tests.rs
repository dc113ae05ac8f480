use kmgr::setup::{loader_verdict, mc_version_verdict};
use kmgr::state::StateError;
use kmgr::cli::{Commands, ProfileCommands};
use kmgr::install::{cannot_restore_message, needs_download, sync_action, update_status, InstallPlan, SyncAction, UpdateStatus};
use kmgr::provider::ResolvedTarget;
use kmgr::setup::{normalize_init_folder, validate_mc_version, validate_mod_loader, validate_mods_folder, SetupError};
use kmgr::state::{InstalledMod, KmgrState};

fn installed(name: &str, version: &str, file: &str, explicit: bool, enabled: bool) -> InstalledMod {
    InstalledMod {
        name: name.to_string(),
        version: version.to_string(),
        source: "modrinth".to_string(),
        filename: file.to_string(),
        download_url: format!("https://cdn.example/{}", file),
        hash: None,
        is_explicit: explicit,
        dependencies: vec![],
        enabled,
    }
}

fn target(id: &str, version: &str, file: &str) -> ResolvedTarget {
    ResolvedTarget {
        id: id.to_string(),
        name: "Sodium".to_string(),
        download_url: format!("https://cdn.example/{}", file),
        hash: Some("abc".to_string()),
        filename: file.to_string(),
        source: "modrinth".to_string(),
        version: version.to_string(),
        dependencies: vec!["fabric-api".to_string()],
    }
}

fn workspace() -> KmgrState {
    let mut s = KmgrState::default();
    s.default_mc_version = "1.20.4".to_string();
    s.mod_loader = "fabric".to_string();
    s
}

#[test]
fn plan_install_for_new_same_and_changed_versions() {
    let mut s = workspace();
    match s.plan_install(0, &target("sodium", "0.5.8", "sodium-0.5.8.jar")) {
        InstallPlan::Download { dest_path, old_filename } => {
            assert_eq!(dest_path, "mods/sodium-0.5.8.jar");
            assert_eq!(old_filename, None);
        },
        InstallPlan::AlreadyInstalled { .. } => panic!("nothing was installed"),
    }
    s.installed_mods.insert("sodium".to_string(), installed("Sodium", "0.5.8", "sodium-0.5.8.jar", false, false));
    match s.plan_install(0, &target("sodium", "0.5.8", "sodium-0.5.8.jar")) {
        InstallPlan::AlreadyInstalled { change_to_explicit } => assert!(change_to_explicit),
        InstallPlan::Download { .. } => panic!("same version downloaded again"),
    }
    match s.plan_install(1, &target("sodium", "0.5.8", "sodium-0.5.8.jar")) {
        InstallPlan::AlreadyInstalled { change_to_explicit } => assert!(!change_to_explicit),
        InstallPlan::Download { .. } => panic!("same version downloaded again"),
    }
    match s.plan_install(1, &target("sodium", "0.6.0", "sub/sodium-0.6.0.jar")) {
        InstallPlan::Download { dest_path, old_filename } => {
            assert_eq!(dest_path, "mods/sodium-0.6.0.jar");
            assert_eq!(old_filename, Some("sodium-0.5.8.jar".to_string()));
        },
        InstallPlan::AlreadyInstalled { .. } => panic!("new version not downloaded"),
    }
}

#[test]
fn recording_a_download_installs_and_joins_the_profile() {
    let mut s = workspace();
    s.installed_mods.insert("sodium".to_string(), installed("Sodium", "0.5.8", "sodium-0.5.8.jar", false, false));
    let old = s.record_download(0, &target("sodium", "0.6.0", "sodium-0.6.0.jar"), &Some("sodium-0.5.8.jar".to_string()));
    assert_eq!(old, Some("mods/sodium-0.5.8.jar.disabled".to_string()));
    let m = s.installed_mods.get("sodium").unwrap();
    assert_eq!(m.version, "0.6.0");
    assert_eq!(m.filename, "sodium-0.6.0.jar");
    assert!(m.enabled);
    assert!(m.is_explicit);
    assert_eq!(m.hash, Some("abc".to_string()));
    assert_eq!(m.dependencies, vec!["fabric-api".to_string()]);
    assert_eq!(s.profiles.get("default"), Some(&vec!["sodium".to_string()]));
    let none = s.record_download(1, &target("fabric-api", "1", "fapi.jar"), &None);
    assert_eq!(none, None);
    assert!(!s.installed_mods.get("fabric-api").unwrap().is_explicit);
    assert_eq!(s.profiles.get("default"), Some(&vec!["sodium".to_string()]));
}

#[test]
fn marking_explicit_joins_the_profile_once() {
    let mut s = workspace();
    s.installed_mods.insert("sodium".to_string(), installed("Sodium", "1", "s.jar", false, true));
    s.mark_explicit("sodium");
    s.mark_explicit("sodium");
    assert!(s.installed_mods.get("sodium").unwrap().is_explicit);
    assert_eq!(s.profiles.get("default"), Some(&vec!["sodium".to_string()]));
}

#[test]
fn applying_an_update_keeps_name_and_flags() {
    let mut s = workspace();
    s.installed_mods.insert("sodium".to_string(), installed("My Sodium", "1", "s-1.jar", true, false));
    let old = s.apply_update("sodium", &target("sodium", "2", "s-2.jar"));
    assert_eq!(old, Some("mods/s-1.jar.disabled".to_string()));
    let m = s.installed_mods.get("sodium").unwrap();
    assert_eq!(m.name, "My Sodium");
    assert_eq!(m.version, "2");
    assert_eq!(m.filename, "s-2.jar");
    assert!(m.is_explicit);
    assert!(!m.enabled);
    let same = s.apply_update("sodium", &target("sodium", "3", "s-2.jar"));
    assert_eq!(same, None);
}

#[test]
fn update_status_and_sync_decisions() {
    assert_eq!(update_status("1.0", None), UpdateStatus::Unknown);
    assert_eq!(update_status("1.0", Some("1.0")), UpdateStatus::UpToDate);
    assert_eq!(update_status("1.0", Some("latest")), UpdateStatus::UpToDate);
    assert_eq!(update_status("1.0", Some("1.1")), UpdateStatus::Available);
    assert!(needs_download(false, &None, &None));
    assert!(!needs_download(true, &None, &None));
    assert!(needs_download(true, &Some("aa".to_string()), &None));
    assert!(needs_download(true, &Some("aa".to_string()), &Some("bb".to_string())));
    assert!(!needs_download(true, &Some("aa".to_string()), &Some("aa".to_string())));
    let mut m = installed("Sodium", "1", "s.jar", true, true);
    assert_eq!(sync_action(&m, false), SyncAction::InSync);
    assert_eq!(sync_action(&m, true), SyncAction::Restore);
    m.download_url = String::new();
    assert_eq!(sync_action(&m, true), SyncAction::CannotRestore);
    assert_eq!(
        cannot_restore_message("s.jar"),
        "Cannot restore 's.jar' automatically (missing download URL in state). Try running `kmgr update --apply`."
    );
}

#[test]
fn setup_validates_the_minecraft_version() {
    assert_eq!(validate_mc_version("  1.20.4 ", "").unwrap(), "1.20.4");
    assert_eq!(validate_mc_version("24W14A", "").unwrap(), "24w14a");
    assert_eq!(validate_mc_version("", "1.19").unwrap(), "1.19");
    assert!(matches!(validate_mc_version("   ", ""), Err(SetupError::EmptyVersion)));
    match validate_mc_version("1.20 beta", "") {
        Err(SetupError::InvalidVersion(v)) => assert_eq!(v, "1.20 beta"),
        _ => panic!("a version with a space was accepted"),
    }
    assert!(matches!(validate_mc_version("latest", ""), Err(SetupError::InvalidVersion(_))));
    assert_eq!(SetupError::EmptyVersion.message(), "Version cannot be empty. Please enter a Minecraft version.");
}

#[test]
fn setup_validates_the_loader() {
    assert_eq!(validate_mod_loader(" Fabric ", "").unwrap(), "fabric");
    assert_eq!(validate_mod_loader("NeoForge", "").unwrap(), "neoforge");
    assert_eq!(validate_mod_loader("", "quilt").unwrap(), "quilt");
    assert!(matches!(validate_mod_loader("", ""), Err(SetupError::EmptyLoader)));
    match validate_mod_loader("Rift", "") {
        Err(e @ SetupError::InvalidLoader(_)) => assert_eq!(e.message(), "Invalid mod loader 'Rift'. Supported: fabric, forge, neoforge, quilt."),
        _ => panic!("an unknown loader was accepted"),
    }
}

#[test]
fn setup_validates_the_mods_folder() {
    assert_eq!(validate_mods_folder("", "", None).unwrap(), "mods");
    assert_eq!(validate_mods_folder("", "custom", None).unwrap(), "custom");
    assert_eq!(validate_mods_folder("\"C:\\Games\\mods\\\"", "", None).unwrap(), "C:/Games/mods");
    assert_eq!(validate_mods_folder("'~/mc/mods/'", "", Some("/home/me")).unwrap(), "/home/me/mc/mods");
    assert_eq!(validate_mods_folder("~/mc", "", None).unwrap(), "~/mc");
    assert!(matches!(validate_mods_folder("mods*", "", None), Err(SetupError::InvalidPathChars)));
    assert!(matches!(validate_mods_folder("///", "", None), Err(SetupError::EmptyPath)));
    assert!(matches!(validate_mods_folder("''", "", None), Err(SetupError::EmptyPath)));
    assert_eq!(SetupError::EmptyPath.message(), "Mods folder path cannot be empty.");
}

#[test]
fn init_records_configuration() {
    assert_eq!(normalize_init_folder("game\\mods\\"), "game/mods");
    assert_eq!(normalize_init_folder("/"), "/");
    assert_eq!(normalize_init_folder("///"), "/");
    let mut s = KmgrState::default();
    s.apply_init("1.20.1".to_string(), "forge".to_string(), Some("run/mods/"));
    assert_eq!(s.default_mc_version, "1.20.1");
    assert_eq!(s.mod_loader, "forge");
    assert_eq!(s.mods_folder, "run/mods");
    s.apply_init("1.21".to_string(), "fabric".to_string(), None);
    assert_eq!(s.mods_folder, "run/mods");
    assert!(s.check_initialized().is_ok());
}

#[test]
fn which_commands_need_a_configured_workspace() {
    assert!(!Commands::Setup.needs_initialized());
    assert!(!Commands::Init { mc_version: "1.20".to_string(), loader: "fabric".to_string() }.needs_initialized());
    assert!(!Commands::Search { query: "x".to_string(), source: None }.needs_initialized());
    assert!(Commands::List.needs_initialized());
    assert!(Commands::Sync.needs_initialized());
    assert!(Commands::Profile { command: ProfileCommands::List }.needs_initialized());
    assert!(Commands::Install { mods: vec![], mc_version: None, source: None }.needs_initialized());
}

#[test]
fn verdicts_on_prepared_answers() {
    assert_eq!(mc_version_verdict("1.20.4", "1.20.4", "").unwrap(), "1.20.4");
    assert_eq!(mc_version_verdict("", "", "1.19").unwrap(), "1.19");
    assert!(matches!(mc_version_verdict("", "", ""), Err(SetupError::EmptyVersion)));
    assert!(matches!(mc_version_verdict("Snap!", "snap!", ""), Err(SetupError::InvalidVersion(v)) if v == "Snap!"));
    assert!(matches!(mc_version_verdict("Beta", "beta", ""), Err(SetupError::InvalidVersion(_))));
    assert_eq!(loader_verdict("Quilt", "quilt", "").unwrap(), "quilt");
    assert_eq!(loader_verdict("", "", "forge").unwrap(), "forge");
    assert!(matches!(loader_verdict("", "", ""), Err(SetupError::EmptyLoader)));
    assert!(matches!(loader_verdict("Liteloader", "liteloader", ""), Err(SetupError::InvalidLoader(l)) if l == "Liteloader"));
}

#[test]
fn a_recorded_target_is_not_downloaded_again() {
    let mut s = workspace();
    let t = target("sodium", "0.5.8", "sodium-0.5.8.jar");
    s.record_download(2, &t, &None);
    match s.plan_install(0, &t) {
        InstallPlan::AlreadyInstalled { change_to_explicit } => assert!(change_to_explicit),
        InstallPlan::Download { .. } => panic!("a recorded target was planned for download"),
    }
    match s.plan_install(3, &t) {
        InstallPlan::AlreadyInstalled { change_to_explicit } => assert!(!change_to_explicit),
        InstallPlan::Download { .. } => panic!("a recorded target was planned for download"),
    }
}

#[test]
fn state_error_messages() {
    assert_eq!(
        StateError::ModLoaderNotConfigured.message(),
        "Mod loader is not configured. Run `kmgr setup` or `kmgr init` first."
    );
    assert_eq!(
        SetupError::InvalidVersion("x y".to_string()).message(),
        "Invalid Minecraft version format (x y). Standard format is major.minor[.patch] (e.g., 1.20.1)."
    );
    assert_eq!(SetupError::EmptyLoader.message(), "Mod loader cannot be empty. Supported loaders: fabric, forge, neoforge, quilt.");
    assert_eq!(
        SetupError::InvalidPathChars.message(),
        "Path contains invalid characters. Please avoid using '*', '?', or quotes in path names."
    );
}

#[test]
fn an_explicit_mod_stays_explicit_when_downloaded_as_a_dependency() {
    let mut s = workspace();
    s.installed_mods.insert("sodium".to_string(), installed("Sodium", "0.5.8", "sodium-0.5.8.jar", true, true));
    s.record_download(3, &target("sodium", "0.6.0", "sodium-0.6.0.jar"), &Some("sodium-0.5.8.jar".to_string()));
    let m = s.installed_mods.get("sodium").unwrap();
    assert!(m.is_explicit);
    assert_eq!(m.version, "0.6.0");
    assert_eq!(s.profiles.get("default"), Some(&vec![]));
    s.record_download(1, &target("lithium", "1", "lithium.jar"), &None);
    assert!(!s.installed_mods.get("lithium").unwrap().is_explicit);
}
