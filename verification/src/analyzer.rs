//! Source model extraction and dependency analysis.

pub mod syntax;
pub mod types;
pub mod syn_bridge;
pub mod parser;
pub mod graph;
pub mod dependency;
pub mod toml_bridge;
pub mod registry;

pub use dependency::{CrateInfo, DependencyAnalyzer, DependencyInfo, DependencyKind};
pub use parser::RustAnalyzer;
pub use registry::{CrateRegistry, InstalledCrate};
pub use types::{AnalyzedItem, SourceLocation, Visibility};
