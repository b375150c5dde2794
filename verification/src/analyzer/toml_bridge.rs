//! Trusted boundary to the external manifest parser.
//!
//! Manifest metadata is read with the `toml` crate. The parsed document is
//! converted shape for shape into [`TomlNode`], a plain-data tree holding
//! only what the registry reads: strings, arrays and tables; every other
//! value kind is carried as `Other`.

use vstd::prelude::*;

verus! {

/// A parsed manifest value, reduced to the shapes the registry reads.
#[derive(Debug)]
pub enum TomlNode {
    /// A string value.
    Str(String),
    /// An array, in document order.
    Arr(Vec<TomlNode>),
    /// A table: key and value pairs, each key once.
    Table(Vec<(String, TomlNode)>),
    /// Any other value kind.
    Other,
}

#[verifier::external_type_specification]
#[verifier::external_body]
pub struct ExTomlValue(toml::Value);

#[verifier::external_type_specification]
#[verifier::external_body]
#[verifier::reject_recursive_types(K)]
#[verifier::reject_recursive_types(V)]
pub struct ExTomlMap<K, V>(toml::map::Map<K, V>);

/// What the external manifest parser yields for a text: `Some` with the
/// converted value tree when `toml` accepts it, `None` when it rejects
/// it. `toml` computes this from the text alone.
pub uninterp spec fn toml_of(s: Seq<char>) -> Option<TomlNode>;

/// Relies on str::parse::<toml::Table>: parses a manifest document,
/// deterministically; fails exactly on malformed input.
#[verifier::external_body]
pub fn parse_toml(content: &str) -> (r: Option<TomlNode>)
    ensures
        r == toml_of(content@),
{
    match content.parse::<toml::Table>() {
        Ok(t) => Some(convert_table(&t)),
        Err(_) => None,
    }
}

/// Relies on toml::Table: converts each key and value pair in order.
#[verifier::external_body]
fn convert_table(t: &toml::Table) -> TomlNode {
    TomlNode::Table(t.iter().map(|(k, val)| (k.clone(), convert_value(val))).collect())
}

/// Relies on toml::Value: tells the value kinds apart, keeping strings,
/// arrays and tables.
#[verifier::external_body]
fn convert_value(v: &toml::Value) -> TomlNode {
    match v {
        toml::Value::String(s) => TomlNode::Str(s.clone()),
        toml::Value::Array(a) => TomlNode::Arr(a.iter().map(convert_value).collect()),
        toml::Value::Table(t) => convert_table(t),
        _ => TomlNode::Other,
    }
}

} // verus!
