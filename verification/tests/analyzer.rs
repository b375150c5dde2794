//! Tests for the source model extraction engine.

use oracle::analyzer::parser::RustAnalyzer;
use oracle::analyzer::types::{AnalyzedItem, StructKind, Visibility};
use oracle::error::OracleError;

#[test]
fn test_analyze_function() {
    let source = r#"
            /// A test function
            pub fn hello(name: &str) -> String {
                format!("Hello, {}!", name)
            }
        "#;

    let analyzer = RustAnalyzer::new();
    let items = analyzer.analyze_source(source).unwrap();

    assert_eq!(items.len(), 1);
    if let AnalyzedItem::Function(f) = &items[0] {
        assert_eq!(f.name, "hello");
        assert_eq!(f.visibility, Visibility::Public);
        assert!(f.documentation.is_some());
    } else {
        panic!("Expected function");
    }
}

#[test]
fn test_analyze_struct() {
    let source = r#"
            #[derive(Debug, Clone)]
            pub struct Point {
                pub x: f64,
                pub y: f64,
            }
        "#;

    let analyzer = RustAnalyzer::new();
    let items = analyzer.analyze_source(source).unwrap();

    assert_eq!(items.len(), 1);
    if let AnalyzedItem::Struct(s) = &items[0] {
        assert_eq!(s.name, "Point");
        assert_eq!(s.fields.len(), 2);
        assert!(s.derives.contains(&"Debug".to_string()));
        assert!(s.derives.contains(&"Clone".to_string()));
    } else {
        panic!("Expected struct");
    }
}

#[test]
fn test_analyze_enum() {
    let source = r#"
            pub enum Result<T, E> {
                Ok(T),
                Err(E),
            }
        "#;
    let analyzer = RustAnalyzer::new();
    let items = analyzer.analyze_source(source).unwrap();
    assert_eq!(items.len(), 1);
    if let AnalyzedItem::Enum(e) = &items[0] {
        assert_eq!(e.name, "Result");
        assert_eq!(e.variants.len(), 2);
    } else {
        panic!("Expected enum");
    }
}

#[test]
fn test_analyze_module_path_from_path() {
    assert_eq!(
        RustAnalyzer::derive_module_path("src/lib.rs"),
        Vec::<String>::new()
    );
    assert_eq!(
        RustAnalyzer::derive_module_path("src/foo/bar.rs"),
        vec!["foo".to_string(), "bar".to_string()]
    );
}

#[test]
fn test_analyze_source_with_module_prefix() {
    let source = "pub fn util() {}";
    let analyzer = RustAnalyzer::new();
    let items = analyzer
        .analyze_source_with_module(source, None, vec!["mymod".to_string()])
        .unwrap();
    assert_eq!(items.len(), 1);
    if let AnalyzedItem::Function(f) = &items[0] {
        assert_eq!(f.name, "util");
        assert_eq!(f.mod_path.as_slice(), &["mymod"]);
    } else {
        panic!("Expected function");
    }
}

#[test]
fn test_same_source_analyzed_twice_is_identical() {
    let source = r#"
            /// Docs.
            pub struct A { pub x: u8 }
            mod inner { pub fn f() {} }
            pub fn top() {}
        "#;
    let analyzer = RustAnalyzer::new();
    let first = analyzer
        .analyze_source_with_path(source, Some("src/a/b.rs".to_string()))
        .unwrap();
    let second = analyzer
        .analyze_source_with_path(source, Some("src/a/b.rs".to_string()))
        .unwrap();
    assert_eq!(first, second);
}

#[test]
fn test_path_composition_through_inline_module() {
    let source = "mod d { pub fn f() {} }";
    let analyzer = RustAnalyzer::new();
    let items = analyzer
        .analyze_source_with_path(source, Some("a/b/c.rs".to_string()))
        .unwrap();
    let f = items
        .iter()
        .find(|it| matches!(it, AnalyzedItem::Function(_)))
        .expect("function record");
    assert_eq!(
        f.mod_path().as_slice(),
        &["a", "b", "c", "d"],
        "file path composed with inline nesting"
    );
    assert_eq!(f.qualified_name(), "a::b::c::d::f");
}

#[test]
fn test_inline_module_is_itself_emitted() {
    let source = "mod d { pub fn f() {} }";
    let analyzer = RustAnalyzer::new();
    let items = analyzer
        .analyze_source_with_path(source, Some("a/b/c.rs".to_string()))
        .unwrap();
    let m = items
        .iter()
        .find(|it| matches!(it, AnalyzedItem::Module(_)))
        .expect("module record");
    assert_eq!(m.name(), "d");
    assert_eq!(m.mod_path().as_slice(), &["a", "b", "c"]);
}

#[test]
fn test_explicit_module_path_with_inline_module() {
    let source = "mod inner { pub fn g() {} }";
    let analyzer = RustAnalyzer::new();
    let items = analyzer
        .analyze_source_with_module(source, None, vec!["pkg".to_string()])
        .unwrap();
    assert_eq!(items.len(), 2);
    if let AnalyzedItem::Function(f) = &items[0] {
        assert_eq!(f.name, "g");
        assert_eq!(f.mod_path.as_slice(), &["pkg", "inner"]);
        assert_eq!(f.visibility, Visibility::Public);
    } else {
        panic!("Expected function first");
    }
    if let AnalyzedItem::Module(m) = &items[1] {
        assert_eq!(m.name, "inner");
        assert_eq!(m.mod_path.as_slice(), &["pkg"]);
        assert!(m.is_inline);
    } else {
        panic!("Expected module record second");
    }
}

#[test]
fn test_public_only_output_is_subset() {
    let source = r#"
            pub fn shown() {}
            fn hidden() {}
            mod m { pub fn inner_public() {} fn inner_private() {} }
        "#;
    let all = RustAnalyzer::new().analyze_source(source).unwrap();
    let public_only = RustAnalyzer::new()
        .with_private(false)
        .analyze_source(source)
        .unwrap();
    for item in &public_only {
        assert!(all.contains(item), "public-only output must be a subset");
    }
    assert!(public_only.len() < all.len());
    for item in &public_only {
        assert_eq!(item.visibility(), Some(Visibility::Public));
    }
}

#[test]
fn test_public_only_empty_when_nothing_public() {
    let source = "fn a() {} mod m { fn b() {} }";
    let public_only = RustAnalyzer::new()
        .with_private(false)
        .analyze_source(source)
        .unwrap();
    assert!(public_only.is_empty());
}

#[test]
fn test_malformed_source_is_a_parse_failure() {
    let analyzer = RustAnalyzer::new();
    let r = analyzer.analyze_source("fn ((( {");
    match r {
        Err(OracleError::Parse(_)) => {}
        _ => panic!("Expected a parse failure"),
    }
}

#[test]
fn test_doc_lines_are_trimmed_and_joined() {
    let source = "/// first line\n///   second line\npub fn f() {}";
    let items = RustAnalyzer::new().analyze_source(source).unwrap();
    if let AnalyzedItem::Function(f) = &items[0] {
        assert_eq!(f.documentation.as_deref(), Some("first line\nsecond line"));
    } else {
        panic!("Expected function");
    }
}

#[test]
fn test_source_location_is_stamped_from_file() {
    let source = "\n\npub struct S;";
    let items = RustAnalyzer::new()
        .analyze_source_with_path(source, Some("src/x.rs".to_string()))
        .unwrap();
    if let AnalyzedItem::Struct(s) = &items[0] {
        assert_eq!(s.source_location.file.as_deref(), Some("src/x.rs"));
        assert_eq!(s.source_location.line, Some(3));
    } else {
        panic!("Expected struct");
    }
}

#[test]
fn test_struct_full_definition_renders_fields() {
    let source = "pub struct P { pub x: u8, y: u16 }";
    let items = RustAnalyzer::new().analyze_source(source).unwrap();
    if let AnalyzedItem::Struct(s) = &items[0] {
        assert_eq!(s.kind, StructKind::Named);
        assert_eq!(
            s.full_definition(),
            "pub struct P {\n    pub x: u8,\n    y: u16\n}"
        );
    } else {
        panic!("Expected struct");
    }
}

#[test]
fn test_impl_and_trait_are_classified() {
    let source = r#"
            pub trait Greet { fn hi(&self) -> String; }
            impl Greet for u8 { fn hi(&self) -> String { String::new() } }
        "#;
    let items = RustAnalyzer::new().analyze_source(source).unwrap();
    assert_eq!(items.len(), 2);
    if let AnalyzedItem::Trait(t) = &items[0] {
        assert_eq!(t.name, "Greet");
        assert_eq!(t.methods.len(), 1);
        assert!(!t.methods[0].has_default);
    } else {
        panic!("Expected trait");
    }
    if let AnalyzedItem::Impl(i) = &items[1] {
        assert_eq!(i.self_ty, "u8");
        assert_eq!(i.trait_name.as_deref(), Some("Greet"));
        assert_eq!(i.methods.len(), 1);
        assert_eq!(i.full_definition(), "impl Greet for u8");
    } else {
        panic!("Expected impl");
    }
}

#[test]
fn test_tuple_struct_fields_are_numbered() {
    let source = "pub struct Pair(pub u8, u16);";
    let items = RustAnalyzer::new().analyze_source(source).unwrap();
    if let AnalyzedItem::Struct(s) = &items[0] {
        assert_eq!(s.kind, StructKind::Tuple);
        assert_eq!(s.fields[0].name, "0");
        assert_eq!(s.fields[1].name, "1");
        assert_eq!(s.fields[1].ty, "u16");
    } else {
        panic!("Expected struct");
    }
}

#[test]
fn test_use_statements_are_skipped() {
    let source = "use core::fmt;\npub fn f() {}";
    let items = RustAnalyzer::new().analyze_source(source).unwrap();
    assert_eq!(items.len(), 1);
    assert_eq!(items[0].kind(), "fn");
}

#[test]
fn test_error_messages_carry_their_prefix() {
    assert_eq!(
        OracleError::Parse("bad token".to_string()).message(),
        "Parse error: bad token"
    );
    assert_eq!(
        OracleError::Config("no directory".to_string()).message(),
        "Configuration error: no directory"
    );
    assert_eq!(OracleError::Other("plain".to_string()).message(), "plain");
}

#[test]
fn test_qualified_name_without_a_path_is_the_name() {
    let items = RustAnalyzer::new().analyze_source("pub fn solo() {}").unwrap();
    assert_eq!(items[0].qualified_name(), "solo");
    assert_eq!(items[0].definition(), "fn solo ()");
}

#[test]
fn test_enum_full_definition_renders_variants() {
    let source = "pub enum E { A, B(u8), C { x: u8 } }";
    let items = RustAnalyzer::new().analyze_source(source).unwrap();
    if let AnalyzedItem::Enum(e) = &items[0] {
        assert_eq!(
            e.full_definition(),
            "pub enum E {\n    A,\n    B(u8),\n    C { x: u8 }\n}"
        );
    } else {
        panic!("Expected enum");
    }
}

#[test]
fn test_const_and_static_records() {
    let source = "pub const LIMIT: usize = 10;\npub static mut FLAG: bool = false;";
    let items = RustAnalyzer::new().analyze_source(source).unwrap();
    assert_eq!(items.len(), 2);
    if let AnalyzedItem::Const(c) = &items[0] {
        assert_eq!(c.name, "LIMIT");
        assert_eq!(c.value.as_deref(), Some("10"));
    } else {
        panic!("Expected const");
    }
    if let AnalyzedItem::Static(s) = &items[1] {
        assert!(s.is_mut);
        assert_eq!(items[1].definition(), "static mut FLAG: bool");
    } else {
        panic!("Expected static");
    }
}

#[test]
fn test_three_levels_of_inline_nesting() {
    let source = "mod a { mod b { mod c { pub fn leaf() {} } } }";
    let items = RustAnalyzer::new().analyze_source(source).unwrap();
    let names: Vec<(String, Vec<String>)> = items
        .iter()
        .map(|it| (it.name().to_string(), it.mod_path().clone()))
        .collect();
    assert_eq!(
        names,
        vec![
            ("leaf".to_string(), vec!["a".into(), "b".into(), "c".into()]),
            ("c".to_string(), vec!["a".into(), "b".into()]),
            ("b".to_string(), vec!["a".into()]),
            ("a".to_string(), vec![]),
        ]
    );
}
