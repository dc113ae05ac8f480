use kmgr::modrinth::{ModrinthClient, SearchResponse, SearchResult};
use kmgr::provider::{build_registry, ModProvider, Provider, ProviderRegistry, RegistryError};
use kmgr::sourceforge::{ListingItem, SfProject, SourceForgeClient, SF_MAX_RESULTS};

#[test]
fn registry_knows_modrinth_sourceforge_and_sf() {
    let reg = build_registry();
    assert_eq!(reg.get("modrinth").unwrap().id(), "modrinth");
    assert_eq!(reg.get("Modrinth").unwrap().display_name(), "Modrinth");
    assert_eq!(reg.get("sourceforge").unwrap().id(), "sourceforge");
    assert_eq!(reg.get("SF").unwrap().display_name(), "SourceForge");
    assert_eq!(reg.get_default().unwrap().id(), "modrinth");
}

#[test]
fn registry_reports_unknown_providers() {
    let reg = build_registry();
    match reg.get("curseforge") {
        Err(RegistryError::NotFound(id)) => assert_eq!(id, "curseforge"),
        Ok(_) => panic!("an unknown provider was found"),
    }
    let err = RegistryError::NotFound("CurseForge".to_string());
    assert_eq!(err.message(), "Provider 'CurseForge' not found");
}

#[test]
fn registry_lookup_after_register_ignores_case() {
    let mut reg: ProviderRegistry<Provider> = ProviderRegistry::new();
    assert!(reg.get_default().is_err());
    reg.register(Provider::SourceForge(SourceForgeClient::new()));
    assert_eq!(reg.get("SourceForge").unwrap().id(), "sourceforge");
    assert_eq!(reg.get("SOURCEFORGE").unwrap().id(), "sourceforge");
    reg.register_as("SF", Provider::SourceForge(SourceForgeClient::new()));
    assert_eq!(reg.get("sf").unwrap().id(), "sourceforge");
}

#[test]
fn modrinth_addresses() {
    let c = ModrinthClient::new();
    assert_eq!(c.base_url(), "https://api.modrinth.com/v2");
    assert_eq!(c.project_url("sodium"), "https://api.modrinth.com/v2/project/sodium");
    assert_eq!(c.version_url("abc123"), "https://api.modrinth.com/v2/version/abc123");
    assert_eq!(c.search_url("iris shaders"), Some("https://api.modrinth.com/v2/search?query=iris+shaders".to_string()));
    assert_eq!(
        c.versions_url("AANobbMI", "1.20.4", "fabric"),
        Some("https://api.modrinth.com/v2/project/AANobbMI/version?game_versions=%5B%221.20.4%22%5D&loaders=%5B%22fabric%22%5D".to_string())
    );
}

#[test]
fn modrinth_search_hits_become_results() {
    let c = ModrinthClient::new();
    let resp = SearchResponse {
        hits: vec![SearchResult {
            slug: "sodium".to_string(),
            title: "Sodium".to_string(),
            description: "Fast rendering".to_string(),
            project_type: "mod".to_string(),
        }],
    };
    let r = c.search_results(resp);
    assert_eq!(r.len(), 1);
    assert_eq!(r[0].title, "Sodium");
    assert_eq!(r[0].description, "Fast rendering");
    assert_eq!(r[0].id_or_slug, "sodium");
    assert_eq!(r[0].extra, Some("Project Type: mod".to_string()));
}

#[test]
fn sourceforge_addresses_and_names() {
    let c = SourceForgeClient::new();
    assert_eq!(c.base_url(), "https://sourceforge.net/rest/p");
    assert_eq!(c.project_url("optifine"), "https://sourceforge.net/rest/p/optifine");
    assert_eq!(c.get_latest_download_url("optifine"), "https://sourceforge.net/projects/optifine/files/latest/download");
    assert_eq!(c.search_url("better foliage"), "https://sourceforge.net/directory/?q=better+foliage");
    assert_eq!(c.normalize_name("Better Foliage"), "better-foliage");
    assert_eq!(c.resolve_name("Better Foliage@2.1"), "better-foliage");
    assert_eq!(c.resolve_name("OptiFine"), "optifine");
}

fn item(href: Option<&str>, title: Option<&str>, desc: Option<&str>) -> ListingItem {
    ListingItem {
        href: href.map(|s| s.to_string()),
        title_text: title.map(|s| s.to_string()),
        description_text: desc.map(|s| s.to_string()),
    }
}

#[test]
fn sourceforge_listing_takes_unique_project_links() {
    let c = SourceForgeClient::new();
    let items = vec![
        item(Some("/projects/optifine/"), Some("  OptiFine \n"), Some(" Shaders and more ")),
        item(Some("/projects/optifine/files"), Some("OptiFine again"), None),
        item(Some("/projects/search/"), Some("Search"), None),
        item(Some("/projects"), Some("Too short"), None),
        item(None, Some("No link"), None),
        item(Some("/projects/foliage/"), None, None),
    ];
    let r = c.listing_search_results(&items);
    assert_eq!(r.len(), 2);
    assert_eq!(r[0].title, "OptiFine");
    assert_eq!(r[0].description, "Shaders and more");
    assert_eq!(r[0].id_or_slug, "optifine");
    assert_eq!(r[0].extra, None);
    assert_eq!(r[1].title, "foliage");
    assert_eq!(r[1].description, "");
}

#[test]
fn sourceforge_listing_stops_at_the_limit() {
    let c = SourceForgeClient::new();
    let items: Vec<ListingItem> = (0..15)
        .map(|i| item(Some(&format!("/projects/p{}/", i)), None, None))
        .collect();
    let r = c.listing_search_results(&items);
    assert_eq!(r.len(), SF_MAX_RESULTS);
    assert_eq!(r[9].id_or_slug, "p9");
}

#[test]
fn sourceforge_fallback_and_target() {
    let c = SourceForgeClient::new();
    let p = SfProject { name: "OptiFine".to_string(), shortdesc: None, url: Some("https://sf/opt".to_string()) };
    let r = c.fallback_result("optifine", p);
    assert_eq!(r.title, "OptiFine");
    assert_eq!(r.description, "");
    assert_eq!(r.id_or_slug, "optifine");
    assert_eq!(r.extra, Some("https://sf/opt".to_string()));
    let p2 = SfProject { name: "OptiFine".to_string(), shortdesc: Some("Fast".to_string()), url: None };
    let t = c.resolved_target("optifine", p2);
    assert_eq!(t.id, "optifine");
    assert_eq!(t.name, "OptiFine");
    assert_eq!(t.download_url, "https://sourceforge.net/projects/optifine/files/latest/download");
    assert_eq!(t.hash, None);
    assert_eq!(t.filename, "optifine-latest.jar");
    assert_eq!(t.source, "sourceforge");
    assert_eq!(t.version, "latest");
    assert!(t.dependencies.is_empty());
}

#[test]
fn sourceforge_search_page_is_read() {
    let c = SourceForgeClient::new();
    let html = r#"<html><body><ul>
        <li><a href="/projects/optifine/">x</a><h2 itemprop="name"> OptiFine </h2><p itemprop="description"> Fast </p></li>
        <li><a href="/projects/optifine/files">again</a></li>
        <li><a href="/about">no project link</a></li>
        <li><a href="/projects/search/">search</a></li>
        <li><a href="/projects/foliage/">y</a></li>
    </ul></body></html>"#;
    let r = c.search_results_from_page(html);
    assert_eq!(r.len(), 2);
    assert_eq!(r[0].title, "OptiFine");
    assert_eq!(r[0].description, "Fast");
    assert_eq!(r[0].id_or_slug, "optifine");
    assert_eq!(r[1].title, "foliage");
    assert_eq!(r[1].id_or_slug, "foliage");
    assert!(c.search_results_from_page("").is_empty());
}

#[test]
fn default_provider_is_the_one_registered_as_modrinth() {
    let mut reg: ProviderRegistry<Provider> = ProviderRegistry::new();
    reg.register_as("modrinth", Provider::SourceForge(SourceForgeClient::new()));
    assert_eq!(reg.get("modrinth").unwrap().id(), "sourceforge");
    match reg.get_default() {
        Err(RegistryError::NotFound(k)) => assert_eq!(k, "modrinth"),
        Ok(_) => panic!("an alias was taken for the default provider"),
    }
    reg.register(Provider::Modrinth(ModrinthClient::new()));
    assert_eq!(reg.get_default().unwrap().id(), "modrinth");
    assert_eq!(reg.get("Modrinth").unwrap().id(), "modrinth");
}

#[test]
fn sourceforge_fallback_only_when_the_page_gives_nothing() {
    let c = SourceForgeClient::new();
    let none = c.search_results_from_page("<ul></ul>");
    assert_eq!(c.fallback_query(&none, "Better Foliage"), Some("better-foliage".to_string()));
    let p = SfProject { name: "Better Foliage".to_string(), shortdesc: None, url: None };
    let r = c.with_fallback(none, "better-foliage", Some(p));
    assert_eq!(r.len(), 1);
    assert_eq!(r[0].id_or_slug, "better-foliage");
    assert_eq!(r[0].title, "Better Foliage");
    assert!(c.with_fallback(vec![], "x", None).is_empty());
    let some = c.search_results_from_page("<li><a href=\"/projects/foo/\">f</a></li>");
    assert_eq!(c.fallback_query(&some, "foo"), None);
    let kept = c.with_fallback(some, "foo", None);
    assert_eq!(kept.len(), 1);
    assert_eq!(kept[0].id_or_slug, "foo");
}
