//! Error type shared by the analysis entry points.

use vstd::prelude::*;

verus! {

/// One error of this library. Each variant carries a message; the
/// constructors that wrap an external failure store that failure's text.
#[derive(Debug, Clone, PartialEq, Eq)]
pub enum OracleError {
    Io(String),
    Parse(String),
    Config(String),
    Network(String),
    CargoMetadata(String),
    Yaml(String),
    Analysis(String),
    Other(String),
}

impl OracleError {
    /// The rendered message, with the variant's prefix.
    pub open spec fn spec_message(self) -> Seq<char> {
        match self {
            OracleError::Io(m) => "IO error: "@ + m@,
            OracleError::Parse(m) => "Parse error: "@ + m@,
            OracleError::Config(m) => "Configuration error: "@ + m@,
            OracleError::Network(m) => "Network error: "@ + m@,
            OracleError::CargoMetadata(m) => "Cargo metadata error: "@ + m@,
            OracleError::Yaml(m) => "YAML error: "@ + m@,
            OracleError::Analysis(m) => "Analysis error: "@ + m@,
            OracleError::Other(m) => m@,
        }
    }

    /// Renders the error as one line of text.
    pub fn message(&self) -> (r: String)
        ensures
            r@ == self.spec_message(),
    {
        let mut r = String::new();
        match self {
            OracleError::Io(m) => {
                r.append("IO error: ");
                r.append(m.as_str());
            },
            OracleError::Parse(m) => {
                r.append("Parse error: ");
                r.append(m.as_str());
            },
            OracleError::Config(m) => {
                r.append("Configuration error: ");
                r.append(m.as_str());
            },
            OracleError::Network(m) => {
                r.append("Network error: ");
                r.append(m.as_str());
            },
            OracleError::CargoMetadata(m) => {
                r.append("Cargo metadata error: ");
                r.append(m.as_str());
            },
            OracleError::Yaml(m) => {
                r.append("YAML error: ");
                r.append(m.as_str());
            },
            OracleError::Analysis(m) => {
                r.append("Analysis error: ");
                r.append(m.as_str());
            },
            OracleError::Other(m) => {
                r.append(m.as_str());
            },
        }
        proof {
            assert(r@ =~= self.spec_message());
        }
        r
    }
}

} // verus!
