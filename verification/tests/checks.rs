//! Tests for crate availability checks and text formatting.

use oracle::crates_io::parse_github_url;
use oracle::utils::crate_check::{
    check_availability, check_crate_in_registry, generate_suggestions, get_locked_version,
    version_compare, CrateAvailability, CrateSuggestion, SuggestedAction,
};
use oracle::utils::path::format_bytes;
use oracle::utils::text::{format_number, normalize_whitespace, pad_right, truncate};

#[test]
fn test_version_compare() {
    assert!(version_compare("1.0.0", "1.0.1").is_lt());
    assert!(version_compare("1.0.1", "1.0.0").is_gt());
    assert!(version_compare("1.0.0", "1.0.0").is_eq());
    assert!(version_compare("0.9.0", "1.0.0").is_lt());
}

#[test]
fn test_version_compare_handles_prefixes_and_pre_releases() {
    assert!(version_compare("v1.2.0", "1.2.0").is_eq());
    assert!(version_compare("1.2.0-alpha", "1.2.0").is_eq());
    assert!(version_compare("1.2", "1.2.1").is_lt());
}

#[test]
fn test_get_locked_version_walks_stanzas() {
    let lock = r#"
[[package]]
name = "serde"
version = "1.0.193"

[[package]]
name = "toml"
version = "0.8.8"
"#;
    assert_eq!(
        get_locked_version(lock, "toml"),
        Some("0.8.8".to_string())
    );
    assert_eq!(
        get_locked_version(lock, "serde"),
        Some("1.0.193".to_string())
    );
    assert_eq!(get_locked_version(lock, "syn"), None);
}

#[test]
fn test_check_crate_in_registry_parses_directory_names() {
    let dirs = vec![
        "other-0.1.0".to_string(),
        "serde-1.0.193".to_string(),
    ];
    assert_eq!(
        check_crate_in_registry(&dirs, "serde"),
        Some("1.0.193".to_string())
    );
    assert_eq!(check_crate_in_registry(&dirs, "syn"), None);
}

#[test]
fn test_check_availability_prefers_lock_version() {
    let path = "/work/project".to_string();
    let a = check_availability(
        "serde",
        Some(&path),
        Some("1.0.0".to_string()),
        Some("1.0.5".to_string()),
    );
    assert!(a.is_installed);
    assert!(a.is_local);
    assert_eq!(a.installed_version.as_deref(), Some("1.0.0"));
    assert_eq!(a.local_path.as_deref(), Some("/work/project"));
    let b = check_availability("serde", None, None, None);
    assert!(!b.is_installed);
    assert!(b.needs_install());
}

#[test]
fn test_has_update_and_install_command() {
    let a = CrateAvailability {
        name: "serde".to_string(),
        is_installed: true,
        installed_version: Some("1.0.0".to_string()),
        latest_version: Some("1.0.5".to_string()),
        is_local: false,
        local_path: None,
    };
    assert!(a.has_update());
    assert_eq!(a.install_command(), "cargo add serde");
    let b = CrateAvailability {
        local_path: Some("/work/lib".to_string()),
        is_local: true,
        ..a.clone()
    };
    assert_eq!(b.install_command(), "cargo add --path /work/lib");
}

#[test]
fn test_suggestions_for_missing_crate() {
    let a = check_availability("anyhow", None, None, None);
    let s = generate_suggestions(&a);
    assert_eq!(s.len(), 2);
    assert_eq!(s[0].action, SuggestedAction::Install);
    assert_eq!(s[0].command, "cargo add anyhow");
    assert_eq!(s[1].command, "xdg-open https://docs.rs/anyhow");
    let installed = CrateAvailability {
        name: "anyhow".to_string(),
        is_installed: true,
        installed_version: Some("1.0.0".to_string()),
        latest_version: None,
        is_local: false,
        local_path: None,
    };
    let s2 = generate_suggestions(&installed);
    assert_eq!(s2.len(), 2);
    assert_eq!(s2[1].command, "cargo doc -p anyhow --open");
}

#[test]
fn test_suggestion_texts() {
    let u = CrateSuggestion::update("serde", "1.0.5");
    assert_eq!(u.command, "cargo update -p serde@1.0.5");
    assert_eq!(u.description, "Update serde to version 1.0.5");
    let d = CrateSuggestion::view_docs("serde");
    assert_eq!(d.description, "Open documentation for serde");
}

#[test]
fn test_parse_github_url_shapes() {
    assert_eq!(
        parse_github_url("https://github.com/owner/repo"),
        Some(("owner".to_string(), "repo".to_string()))
    );
    assert_eq!(
        parse_github_url("https://github.com/owner/repo/"),
        Some(("owner".to_string(), "repo".to_string()))
    );
    assert_eq!(
        parse_github_url(" http://github.com/a/b/tree/main "),
        Some(("a".to_string(), "b".to_string()))
    );
    assert_eq!(parse_github_url("https://gitlab.com/a/b"), None);
    assert_eq!(parse_github_url("https://github.com/solo"), None);
    assert_eq!(parse_github_url("https://github.com//repo"), None);
}

#[test]
fn test_format_bytes_scales() {
    assert_eq!(format_bytes(512), "512 B");
    assert_eq!(format_bytes(1536), "1.5 KB");
    assert_eq!(format_bytes(1_048_576), "1.0 MB");
    assert_eq!(format_bytes(3 * 1024 * 1024 * 1024), "3.0 GB");
}

#[test]
fn test_format_number_scales() {
    assert_eq!(format_number(999), "999");
    assert_eq!(format_number(1500), "1.5K");
    assert_eq!(format_number(2_000_000), "2.0M");
}

#[test]
fn test_pad_right_and_truncate() {
    assert_eq!(pad_right("ab", 5), "ab   ");
    assert_eq!(pad_right("abcdef", 3), "abcdef");
    assert_eq!(truncate("hello", 10), "hello");
    assert_eq!(truncate("hello", 3), "he\u{2026}");
}

#[test]
fn test_normalize_whitespace_collapses_runs() {
    assert_eq!(normalize_whitespace("  a \t b\n\nc  "), "a b c");
    assert_eq!(normalize_whitespace(""), "");
    assert_eq!(normalize_whitespace("   "), "");
}

#[test]
fn test_version_compare_is_numeric_not_textual() {
    assert!(version_compare("1.0.9", "1.0.10").is_lt());
    assert!(version_compare("0.10.0", "0.9.9").is_gt());
}
