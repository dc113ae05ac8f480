use kmgr::modrinth::{Dependency, ModrinthClient, Project, Version, VersionFile};
use kmgr::ordered_map::OrderedMap;
use kmgr::resolve::{choose_file, collect_links, pick_hash, required_steps, select_version, DepStep, ResolveRequest, ResolveSession};
use kmgr::resolver::DependencyResolver;

fn file(name: &str, primary: bool, sha1: Option<&str>, sha512: Option<&str>) -> VersionFile {
    let mut hashes: OrderedMap<String> = OrderedMap::new();
    if let Some(h) = sha1 {
        hashes.insert("sha1".to_string(), h.to_string());
    }
    if let Some(h) = sha512 {
        hashes.insert("sha512".to_string(), h.to_string());
    }
    VersionFile { hashes, url: format!("https://cdn.modrinth.com/{}", name), filename: name.to_string(), primary }
}

fn dep(version_id: Option<&str>, project_id: Option<&str>, kind: &str) -> Dependency {
    Dependency {
        version_id: version_id.map(|s| s.to_string()),
        project_id: project_id.map(|s| s.to_string()),
        dependency_type: kind.to_string(),
    }
}

fn version(id: &str, project: &str, number: &str, deps: Vec<Dependency>, files: Vec<VersionFile>) -> Version {
    Version {
        id: id.to_string(),
        project_id: project.to_string(),
        version_number: number.to_string(),
        dependencies: deps,
        files,
    }
}

fn project(id: &str, slug: &str, title: &str) -> Project {
    Project { id: id.to_string(), slug: slug.to_string(), title: title.to_string() }
}

#[test]
fn select_version_by_number_or_id() {
    let vs = vec![
        version("v3", "p", "3.0", vec![], vec![]),
        version("v2", "p", "2.0", vec![], vec![]),
        version("v1", "p", "1.0", vec![], vec![]),
    ];
    assert_eq!(select_version(&vs, &None), Some(0));
    assert_eq!(select_version(&vs, &Some("2.0".to_string())), Some(1));
    assert_eq!(select_version(&vs, &Some("v1".to_string())), Some(2));
    assert_eq!(select_version(&vs, &Some("9.9".to_string())), None);
    assert_eq!(select_version(&vec![], &None), None);
}

#[test]
fn required_steps_keep_only_required_dependencies() {
    let v = version(
        "v",
        "p",
        "1",
        vec![
            dep(Some("dv"), Some("dp"), "required"),
            dep(None, Some("fabric-api"), "required"),
            dep(None, Some("modmenu"), "optional"),
            dep(None, None, "required"),
        ],
        vec![],
    );
    let steps = required_steps(&v);
    assert_eq!(steps.len(), 2);
    assert!(matches!(&steps[0], DepStep::FetchVersion(x) if x == "dv"));
    assert!(matches!(&steps[1], DepStep::Project(x) if x == "fabric-api"));
    let fetched = vec![Some(version("dv", "dp", "5", vec![], vec![])), None];
    let (reqs, ids) = collect_links(&steps, &fetched);
    assert_eq!(reqs.len(), 2);
    assert_eq!(reqs[0].project, "dp");
    assert_eq!(reqs[0].version, Some("dv".to_string()));
    assert_eq!(reqs[1].project, "fabric-api");
    assert_eq!(reqs[1].version, None);
    assert_eq!(ids, vec!["dp".to_string(), "fabric-api".to_string()]);
    let (reqs2, ids2) = collect_links(&steps, &vec![None, None]);
    assert_eq!(reqs2.len(), 1);
    assert_eq!(ids2, vec!["fabric-api".to_string()]);
}

#[test]
fn choose_file_prefers_primary() {
    let fs = vec![file("a.jar", false, None, None), file("b.jar", true, None, None), file("c.jar", true, None, None)];
    assert_eq!(choose_file(&fs), Some(1));
    let fs2 = vec![file("a.jar", false, None, None), file("b.jar", false, None, None)];
    assert_eq!(choose_file(&fs2), Some(0));
    assert_eq!(choose_file(&vec![]), None);
}

#[test]
fn pick_hash_prefers_sha512() {
    assert_eq!(pick_hash(&file("a.jar", true, Some("s1"), Some("s512"))), Some("s512".to_string()));
    assert_eq!(pick_hash(&file("a.jar", true, Some("s1"), None)), Some("s1".to_string()));
    assert_eq!(pick_hash(&file("a.jar", true, None, None)), None);
}

#[test]
fn session_splits_the_version_off_the_request() {
    let mut s = ResolveSession::new("sodium@0.5.3");
    assert_eq!(s.queue.len(), 1);
    assert_eq!(s.queue[0].project, "sodium");
    assert_eq!(s.queue[0].version, Some("0.5.3".to_string()));
    let batch = s.next_batch();
    assert_eq!(batch.len(), 1);
    assert!(s.queue.is_empty());
    assert_eq!(s.seen, vec!["sodium".to_string()]);
    let s2 = ResolveSession::new("iris");
    assert_eq!(s2.queue[0].project, "iris");
    assert_eq!(s2.queue[0].version, None);
}

#[test]
fn batch_skips_projects_already_seen() {
    let mut s = ResolveSession::new("iris");
    let _ = s.next_batch();
    s.queue.push(ResolveRequest { project: "iris".to_string(), version: None });
    s.queue.push(ResolveRequest { project: "sodium".to_string(), version: None });
    s.queue.push(ResolveRequest { project: "sodium".to_string(), version: Some("2".to_string()) });
    let batch = s.next_batch();
    assert_eq!(batch.len(), 2);
    assert_eq!(batch[0].project, "sodium");
    assert_eq!(batch[1].project, "sodium");
    assert_eq!(s.seen, vec!["iris".to_string(), "sodium".to_string(), "sodium".to_string()]);
    let again = s.next_batch();
    assert!(again.is_empty());
}

#[test]
fn finished_session_puts_the_root_first() {
    let mut s = ResolveSession::new("iris");
    let _ = s.next_batch();
    let iris_v = version(
        "iv",
        "YL57xq9U",
        "1.7.0",
        vec![dep(None, Some("AANobbMI"), "required")],
        vec![file("jars/iris-1.7.0.jar", true, Some("aa"), Some("bb"))],
    );
    let steps = required_steps(&iris_v);
    let (next, deps) = collect_links(&steps, &vec![None]);
    s.record(project("YL57xq9U", "iris", "Iris Shaders"), iris_v, next, deps);
    let batch = s.next_batch();
    assert_eq!(batch.len(), 1);
    assert_eq!(batch[0].project, "AANobbMI");
    let sodium_v = version("sv", "AANobbMI", "0.5.8", vec![], vec![file("sodium.jar", false, Some("cc"), None)]);
    s.record(project("AANobbMI", "sodium", "Sodium"), sodium_v, vec![], vec![]);
    assert!(s.next_batch().is_empty());
    let ts = ModrinthClient::new().resolved_targets(&s);
    assert_eq!(ts.len(), 2);
    assert_eq!(ts[0].id, "YL57xq9U");
    assert_eq!(ts[0].name, "Iris Shaders");
    assert_eq!(ts[0].filename, "iris-1.7.0.jar");
    assert_eq!(ts[0].hash, Some("bb".to_string()));
    assert_eq!(ts[0].version, "1.7.0");
    assert_eq!(ts[0].source, "modrinth");
    assert_eq!(ts[0].dependencies, vec!["AANobbMI".to_string()]);
    assert_eq!(ts[0].download_url, "https://cdn.modrinth.com/jars/iris-1.7.0.jar");
    assert_eq!(ts[1].id, "AANobbMI");
    assert_eq!(ts[1].name, "Sodium");
    assert_eq!(ts[1].hash, Some("cc".to_string()));
    assert!(ts[1].dependencies.is_empty());
}

#[test]
fn depth_first_resolution_visits_each_project_once() {
    let resolver = DependencyResolver::new();
    let mut r = resolver.start("iris");
    assert_eq!(r.next_request(), Some("iris".to_string()));
    r.record_project(&project("YL57xq9U", "iris", "Iris"));
    let v = version(
        "iv",
        "YL57xq9U",
        "1",
        vec![dep(Some("sv"), Some("AANobbMI"), "required"), dep(Some("xv"), None, "required"), dep(None, Some("opt"), "optional")],
        vec![],
    );
    let steps = r.dependency_steps(&v);
    assert_eq!(steps.len(), 2);
    assert!(matches!(&steps[0], DepStep::Project(x) if x == "AANobbMI"));
    assert!(matches!(&steps[1], DepStep::FetchVersion(x) if x == "xv"));
    let fetched = vec![None, Some(version("xv", "lib", "2", vec![], vec![]))];
    r.record_version("YL57xq9U".to_string(), v, &steps, &fetched);
    assert_eq!(r.queue, vec!["AANobbMI".to_string(), "lib".to_string()]);
    assert_eq!(r.next_request(), Some("lib".to_string()));
    r.queue.push("iris".to_string());
    assert_eq!(r.next_request(), Some("AANobbMI".to_string()));
    assert_eq!(r.next_request(), None);
    let done = r.finish();
    assert_eq!(done.len(), 1);
    assert_eq!(done[0].id, "iv");
}

#[test]
fn depth_first_resolution_takes_the_latest_version() {
    let vs = vec![version("new", "p", "2.0", vec![], vec![]), version("old", "p", "1.0", vec![], vec![])];
    assert_eq!(kmgr::resolver::latest_version(vs).map(|v| v.id), Some("new".to_string()));
    assert!(kmgr::resolver::latest_version(vec![]).is_none());
}
