//! Tests for the installed crates registry and crate checks.

use oracle::analyzer::registry::{CrateRegistry, InstalledCrate, SourceFile};
use oracle::analyzer::types::AnalyzedItem;

fn installed(name: &str, version: &str) -> InstalledCrate {
    InstalledCrate {
        name: name.to_string(),
        version: version.to_string(),
        path: format!("/tmp/registry/{}-{}", name, version),
        readme: None,
        license: None,
        description: None,
        authors: vec![],
        repository: None,
        documentation: None,
        keywords: vec![],
        categories: vec![],
    }
}

#[test]
fn test_parse_crate_name_version() {
    let cases = vec![
        (
            "serde-1.0.193",
            Some(("serde".to_string(), "1.0.193".to_string())),
        ),
        (
            "serde_json-1.0.108",
            Some(("serde_json".to_string(), "1.0.108".to_string())),
        ),
        (
            "tokio-1.35.0",
            Some(("tokio".to_string(), "1.35.0".to_string())),
        ),
        (
            "my-crate-name-0.1.0",
            Some(("my-crate-name".to_string(), "0.1.0".to_string())),
        ),
    ];

    for (input, expected) in cases {
        assert_eq!(
            CrateRegistry::parse_crate_name_version(input),
            expected,
            "Failed for: {}",
            input
        );
    }
}

#[test]
fn test_parse_crate_name_version_rejects_versionless() {
    assert_eq!(CrateRegistry::parse_crate_name_version("no_version"), None);
    assert_eq!(CrateRegistry::parse_crate_name_version(""), None);
}

#[test]
fn test_parse_crate_directory_reads_manifest() {
    let registry = CrateRegistry::with_path("/tmp/reg".to_string());
    let manifest = r#"
[package]
name = "demo"
description = "A demo"
license = "MIT"
authors = ["Ada <ada@example.com>"]
keywords = ["one", "two"]
"#;
    let c = registry
        .parse_crate_directory("demo-0.2.1", "/tmp/reg/demo-0.2.1".to_string(), Some(manifest), None)
        .expect("record");
    assert_eq!(c.name, "demo");
    assert_eq!(c.version, "0.2.1");
    assert_eq!(c.description.as_deref(), Some("A demo"));
    assert_eq!(c.license.as_deref(), Some("MIT"));
    assert_eq!(c.authors, vec!["Ada <ada@example.com>".to_string()]);
    assert_eq!(c.keywords, vec!["one".to_string(), "two".to_string()]);
    assert!(c.readme.is_none());
}

#[test]
fn test_registry_lookup_and_count() {
    let mut registry = CrateRegistry::with_path("/tmp/reg".to_string());
    registry.add_crate(installed("serde", "1.0.1"));
    registry.add_crate(installed("serde", "1.0.9"));
    registry.add_crate(installed("serde", "1.0.10"));
    registry.add_crate(installed("toml", "0.8.0"));
    assert_eq!(registry.count(), 2);
    assert!(registry.is_installed("serde"));
    assert!(!registry.is_installed("syn"));
    assert_eq!(
        registry.crate_names(),
        vec!["serde".to_string(), "toml".to_string()]
    );
    // The simplified ordering is textual, so "1.0.9" sorts above "1.0.10".
    let versions: Vec<String> = registry
        .versions("serde")
        .into_iter()
        .map(|c| c.version)
        .collect();
    assert_eq!(
        versions,
        vec![
            "1.0.9".to_string(),
            "1.0.10".to_string(),
            "1.0.1".to_string(),
        ]
    );
    assert_eq!(registry.latest("serde").unwrap().version, "1.0.9");
    assert!(registry.get("serde", "1.0.10").is_some());
    assert!(registry.get("serde", "2.0.0").is_none());
}

#[test]
fn test_search_is_case_insensitive() {
    let mut registry = CrateRegistry::with_path("/tmp/reg".to_string());
    registry.add_crate(installed("Serde", "1.0.0"));
    registry.add_crate(installed("toml", "0.8.0"));
    let hits = registry.search("SER");
    assert_eq!(hits.len(), 1);
    assert_eq!(hits[0].name, "Serde");
    assert!(registry.search("json").is_empty());
}

#[test]
fn test_build_module_path_strips_roots() {
    assert_eq!(
        CrateRegistry::build_module_path("/cache/serde-1.0/src/de/value.rs", "serde"),
        vec!["serde".to_string(), "de".to_string(), "value".to_string()]
    );
    assert_eq!(
        CrateRegistry::build_module_path("/cache/serde-1.0/src/lib.rs", "serde"),
        vec!["serde".to_string()]
    );
    assert_eq!(
        CrateRegistry::build_module_path("no_src_marker.rs", "my-crate"),
        vec!["my-crate".to_string()]
    );
}

#[test]
fn test_analyze_crate_uses_module_paths() {
    let mut registry = CrateRegistry::with_path("/tmp/reg".to_string());
    registry.add_crate(installed("demo", "1.0.0"));
    let files = vec![
        SourceFile {
            path: "/tmp/reg/demo-1.0.0/src/lib.rs".to_string(),
            content: "pub fn top() {}".to_string(),
        },
        SourceFile {
            path: "/tmp/reg/demo-1.0.0/src/util.rs".to_string(),
            content: "pub fn helper() {}".to_string(),
        },
        SourceFile {
            path: "/tmp/reg/demo-1.0.0/README.md".to_string(),
            content: "not source".to_string(),
        },
    ];
    let items = registry.analyze_crate("demo", None, &files).unwrap();
    assert_eq!(items.len(), 2);
    if let AnalyzedItem::Function(f) = &items[0] {
        assert_eq!(f.name, "top");
        assert_eq!(f.mod_path.as_slice(), &["demo"]);
    } else {
        panic!("Expected function");
    }
    if let AnalyzedItem::Function(f) = &items[1] {
        assert_eq!(f.name, "helper");
        assert_eq!(f.mod_path.as_slice(), &["demo", "util"]);
    } else {
        panic!("Expected function");
    }
    let none = registry.analyze_crate("absent", None, &files).unwrap();
    assert!(none.is_empty());
}

#[test]
fn test_readme_truncation() {
    let registry = CrateRegistry::with_path("/tmp/reg".to_string());
    let long = "a".repeat(10_050);
    let c = registry
        .parse_crate_directory("big-1.0.0", "p".to_string(), None, Some(long))
        .unwrap();
    let readme = c.readme.unwrap();
    assert!(readme.ends_with("\n...[truncated]"));
    assert_eq!(readme.len(), 10_000 + "\n...[truncated]".len());
    let c2 = registry
        .parse_crate_directory("small-1.0.0", "p".to_string(), None, Some("short".to_string()))
        .unwrap();
    assert_eq!(c2.readme.as_deref(), Some("short"));
}
