use package_manager::manifest::{
    Dependencies, Dependency, DependencyMap, Manifest, PackageType, RunPermissions,
};

fn explicit(version: &str) -> Dependency {
    Dependency::Explicit {
        registry: "ghcr.io".to_string(),
        namespace: "example".to_string(),
        package: "pkg".to_string(),
        version: version.to_string(),
        permissions: None,
    }
}

#[test]
fn test_all_dependencies() {
    let mut components = DependencyMap::new();
    components.insert(
        "root:component".to_string(),
        Dependency::Compact("ghcr.io/example/component:0.1.0".to_string()),
    );
    let mut interfaces = DependencyMap::new();
    interfaces.insert(
        "wasi:logging".to_string(),
        Dependency::Compact("ghcr.io/webassembly/wasi-logging:1.0.0".to_string()),
    );

    let manifest = Manifest {
        dependencies: Dependencies {
            components,
            interfaces,
        },
    };

    let all: Vec<_> = manifest.all_dependencies();
    assert_eq!(all.len(), 2);

    let has_component = all.iter().any(|(_, _, pt)| *pt == PackageType::Component);
    let has_interface = all.iter().any(|(_, _, pt)| *pt == PackageType::Interface);
    assert!(has_component);
    assert!(has_interface);
}

#[test]
fn test_invalid_version_constraint() {
    let dep = explicit("not-a-version");
    assert!(dep.parse_version_req().is_err());
}

#[test]
fn test_version_extraction() {
    let compact = Dependency::Compact("ghcr.io/example/pkg:1.0.0".to_string());
    assert_eq!(compact.version(), Some("1.0.0"));

    let explicit = Dependency::Explicit {
        registry: "ghcr.io".to_string(),
        namespace: "example".to_string(),
        package: "pkg".to_string(),
        version: "^2.0.0".to_string(),
        permissions: None,
    };
    assert_eq!(explicit.version(), Some("^2.0.0"));
}

#[test]
fn test_version_latest_skips_validation() {
    let dep = explicit("latest");
    assert!(dep.parse_version_req().unwrap().is_none());
}

#[test]
fn version_constraints_are_accepted() {
    let logging = explicit("^1.2.3");
    assert_eq!(logging.version(), Some("^1.2.3"));
    assert!(logging.parse_version_req().unwrap().is_some());

    let clocks = explicit(">=1.0.0, <2.0.0");
    assert_eq!(clocks.version(), Some(">=1.0.0, <2.0.0"));
    assert!(clocks.parse_version_req().unwrap().is_some());
}

#[test]
fn compact_version_edge_cases() {
    assert_eq!(Dependency::Compact("ghcr.io/example/pkg".to_string()).version(), None);
    assert_eq!(
        Dependency::Compact("localhost:5000/example/pkg:0.2.5".to_string()).version(),
        Some("0.2.5")
    );
    assert_eq!(Dependency::Compact("ghcr.io/example/pkg:".to_string()).version(), Some(""));
    assert_eq!(Dependency::Compact(String::new()).version(), None);
}

#[test]
fn empty_or_missing_versions_skip_validation() {
    assert!(explicit("").parse_version_req().unwrap().is_none());
    let no_version = Dependency::Compact("ghcr.io/example/pkg".to_string());
    assert!(no_version.parse_version_req().unwrap().is_none());
    let compact_latest = Dependency::Compact("ghcr.io/example/pkg:latest".to_string());
    assert!(compact_latest.parse_version_req().unwrap().is_none());
    let compact_bad = Dependency::Compact("ghcr.io/example/pkg:one".to_string());
    assert!(compact_bad.parse_version_req().is_err());
    let compact_good = Dependency::Compact("ghcr.io/example/pkg:1.0.0".to_string());
    assert!(compact_good.parse_version_req().unwrap().is_some());
}

#[test]
fn dependency_map_insert_get_and_replace() {
    let mut map = DependencyMap::new();
    assert!(map.is_empty());
    assert_eq!(map.insert("a".to_string(), explicit("1.0.0")), None);
    assert_eq!(map.insert("b".to_string(), explicit("2.0.0")), None);
    assert_eq!(map.len(), 2);
    assert!(map.contains_key("a"));
    assert!(!map.contains_key("c"));
    assert_eq!(map.get("b"), Some(&explicit("2.0.0")));
    assert_eq!(map.insert("a".to_string(), explicit("3.0.0")), Some(explicit("1.0.0")));
    assert_eq!(map.len(), 2);
    assert_eq!(map.get("a"), Some(&explicit("3.0.0")));
    assert_eq!(map.get("b"), Some(&explicit("2.0.0")));
    let keys: Vec<&str> = map.entries().iter().map(|(k, _)| k.as_str()).collect();
    assert_eq!(keys, vec!["a", "b"]);
}

#[test]
fn all_lists_components_then_interfaces() {
    let mut deps = Dependencies::default();
    deps.interfaces.insert("wasi:clocks".to_string(), explicit("0.2.5"));
    deps.components.insert("root:one".to_string(), explicit("1.0.0"));
    deps.components.insert("root:two".to_string(), explicit("2.0.0"));
    let all = deps.all();
    let names: Vec<(&str, PackageType)> = all.iter().map(|(k, _, t)| (k.as_str(), *t)).collect();
    assert_eq!(
        names,
        vec![
            ("root:one", PackageType::Component),
            ("root:two", PackageType::Component),
            ("wasi:clocks", PackageType::Interface),
        ]
    );
    assert_eq!(*all[2].1, explicit("0.2.5"));
}

#[test]
fn empty_manifest_lists_nothing() {
    let manifest = Manifest::default();
    assert!(manifest.all_dependencies().is_empty());
    assert_eq!(manifest.dependencies.components.len(), 0);
    assert_eq!(manifest.dependencies.interfaces.len(), 0);
}

#[test]
fn cloned_map_keeps_names() {
    let mut map = DependencyMap::new();
    map.insert("x".to_string(), explicit("1.0.0"));
    map.insert("y".to_string(), Dependency::Compact("r/n/p:1".to_string()));
    let copy = map.clone();
    assert_eq!(copy, map);
}

#[test]
fn maps_with_the_same_entries_are_equal_in_any_order() {
    let mut a = DependencyMap::new();
    a.insert("x".to_string(), explicit("1.0.0"));
    a.insert("y".to_string(), explicit("2.0.0"));
    let mut b = DependencyMap::new();
    b.insert("y".to_string(), explicit("2.0.0"));
    b.insert("x".to_string(), explicit("1.0.0"));
    assert_eq!(a, b);
    b.insert("x".to_string(), explicit("1.0.1"));
    assert_ne!(a, b);
    let mut c = DependencyMap::new();
    c.insert("x".to_string(), explicit("1.0.0"));
    assert_ne!(a, c);
    assert_ne!(c, a);
}

#[test]
fn dependency_equality_compares_every_field() {
    let with_dirs = |dirs: Vec<&str>| Dependency::Explicit {
        registry: "ghcr.io".to_string(),
        namespace: "example".to_string(),
        package: "pkg".to_string(),
        version: "1.0.0".to_string(),
        permissions: Some(RunPermissions {
            inherit_env: Some(true),
            allow_dirs: Some(dirs.into_iter().map(std::path::PathBuf::from).collect()),
        }),
    };
    assert_eq!(with_dirs(vec!["/data", "./output"]), with_dirs(vec!["/data", "./output"]));
    assert_ne!(with_dirs(vec!["/data"]), with_dirs(vec!["/data", "./output"]));
    assert_ne!(with_dirs(vec!["/data"]), explicit("1.0.0"));
    assert_ne!(explicit("1.0.0"), Dependency::Compact("ghcr.io/example/pkg:1.0.0".to_string()));
    assert_eq!(
        Dependency::Compact("a:1".to_string()),
        Dependency::Compact("a:1".to_string())
    );
}

#[test]
fn parsed_requirement_is_what_semver_reads() {
    let req = explicit("^1.2.3").parse_version_req().unwrap().unwrap();
    assert_eq!(req, semver::VersionReq::parse("^1.2.3").unwrap());
    let compact = Dependency::Compact("ghcr.io/example/pkg:>=1.0.0, <2.0.0".to_string());
    assert_eq!(
        compact.parse_version_req().unwrap().unwrap(),
        semver::VersionReq::parse(">=1.0.0, <2.0.0").unwrap()
    );
}
