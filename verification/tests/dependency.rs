//! Tests for the dependency graph engine.

use oracle::analyzer::dependency::{
    DependencyAnalyzer, DependencyKind, DependencyMeta, MetadataSnapshot, PackageMeta,
};

fn package(name: &str, deps: Vec<&str>) -> PackageMeta {
    PackageMeta {
        name: name.to_string(),
        version: "1.0.0".to_string(),
        authors: vec![],
        license: None,
        description: None,
        homepage: None,
        repository: None,
        documentation: None,
        edition: "2021".to_string(),
        rust_version: None,
        dependencies: deps
            .into_iter()
            .map(|d| DependencyMeta {
                name: d.to_string(),
                req: "^1".to_string(),
                optional: false,
                features: vec![],
                kind: DependencyKind::Normal,
            })
            .collect(),
        features: vec![],
    }
}

#[test]
fn test_chain_traversal_and_count() {
    let meta = MetadataSnapshot {
        packages: vec![
            package("root", vec!["mid"]),
            package("mid", vec!["leaf"]),
            package("leaf", vec![]),
        ],
        root: Some("root".to_string()),
    };
    let analyzer = DependencyAnalyzer::from_metadata(meta);
    let tree = analyzer.dependency_tree("root");
    assert_eq!(
        tree,
        vec![
            ("root".to_string(), 0),
            ("mid".to_string(), 1),
            ("leaf".to_string(), 2),
        ]
    );
    assert_eq!(analyzer.total_dependency_count("root"), 2);
}

#[test]
fn test_cycle_is_traversed_once() {
    let meta = MetadataSnapshot {
        packages: vec![package("A", vec!["B"]), package("B", vec!["A"])],
        root: Some("A".to_string()),
    };
    let analyzer = DependencyAnalyzer::from_metadata(meta);
    let tree = analyzer.dependency_tree("A");
    assert_eq!(tree, vec![("A".to_string(), 0), ("B".to_string(), 1)]);
    let a_count = tree.iter().filter(|(n, _)| n == "A").count();
    let b_count = tree.iter().filter(|(n, _)| n == "B").count();
    assert_eq!(a_count, 1);
    assert_eq!(b_count, 1);
}

#[test]
fn test_first_discovery_depth() {
    // R's declared order makes the traversal take X first; Y is then
    // reported at the depth where X discovered it, not at depth 1.
    let meta = MetadataSnapshot {
        packages: vec![
            package("R", vec!["Y", "X"]),
            package("X", vec!["Y"]),
            package("Y", vec![]),
        ],
        root: Some("R".to_string()),
    };
    let analyzer = DependencyAnalyzer::from_metadata(meta);
    let tree = analyzer.dependency_tree("R");
    assert_eq!(
        tree,
        vec![
            ("R".to_string(), 0),
            ("X".to_string(), 1),
            ("Y".to_string(), 2),
        ]
    );
}

#[test]
fn test_unknown_root_yields_empty_tree() {
    let meta = MetadataSnapshot {
        packages: vec![package("only", vec![])],
        root: None,
    };
    let analyzer = DependencyAnalyzer::from_metadata(meta);
    assert!(analyzer.dependency_tree("absent").is_empty());
    assert_eq!(analyzer.total_dependency_count("absent"), 0);
}

#[test]
fn test_edges_to_unknown_packages_are_ignored() {
    let meta = MetadataSnapshot {
        packages: vec![package("top", vec!["ghost", "real"]), package("real", vec![])],
        root: Some("top".to_string()),
    };
    let analyzer = DependencyAnalyzer::from_metadata(meta);
    let tree = analyzer.dependency_tree("top");
    assert_eq!(tree, vec![("top".to_string(), 0), ("real".to_string(), 1)]);
}

#[test]
fn test_direct_dependencies_carry_metadata() {
    let mut p = package("app", vec!["serde"]);
    p.dependencies[0].optional = true;
    p.dependencies[0].features = vec!["derive".to_string()];
    let meta = MetadataSnapshot {
        packages: vec![p, package("serde", vec![])],
        root: Some("app".to_string()),
    };
    let analyzer = DependencyAnalyzer::from_metadata(meta);
    let deps = analyzer.direct_dependencies("app");
    assert_eq!(deps.len(), 1);
    assert_eq!(deps[0].name, "serde");
    assert_eq!(deps[0].version, "^1");
    assert!(deps[0].optional);
    assert_eq!(deps[0].features, vec!["derive".to_string()]);
    assert_eq!(deps[0].kind, DependencyKind::Normal);
    assert!(analyzer.direct_dependencies("absent").is_empty());
}

#[test]
fn test_root_package_and_features() {
    let mut p = package("app", vec![]);
    p.features = vec![
        ("default".to_string(), vec!["std".to_string()]),
        ("std".to_string(), vec![]),
    ];
    let meta = MetadataSnapshot {
        packages: vec![p],
        root: Some("app".to_string()),
    };
    let analyzer = DependencyAnalyzer::from_metadata(meta);
    let info = analyzer.root_package().expect("root package");
    assert_eq!(info.name, "app");
    assert_eq!(info.features, vec!["default".to_string(), "std".to_string()]);
    assert_eq!(info.default_features, vec!["std".to_string()]);
    assert_eq!(info.edition, "2021");
    let all = analyzer.all_packages();
    assert_eq!(all.len(), 1);
    assert!(analyzer.get_crate_info("app").is_some());
    assert!(analyzer.get_crate_info("nope").is_none());
}
