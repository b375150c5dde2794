//! Theme preset identifiers for configuration and cycling.

use vstd::prelude::*;
use crate::strings::{lower_of, lowercase, str_eq, trim_str, trim_spec};

verus! {

/// A theme preset.
#[derive(Debug, Clone, Copy, PartialEq, Eq, Structural)]
pub enum ThemeKind {
    DefaultDark,
    Nord,
    CatppuccinMocha,
    Dracula,
}

impl ThemeKind {
    /// The preset a normalized configuration name maps to; an unknown
    /// name falls back to the default.
    pub open spec fn spec_from_canonical(s: Seq<char>) -> ThemeKind {
        if s == "nord"@ {
            ThemeKind::Nord
        } else if s == "catppuccin_mocha"@ || s == "catppuccin"@ || s == "mocha"@ || s
            == "catppuccin mocha"@ {
            ThemeKind::CatppuccinMocha
        } else if s == "dracula"@ {
            ThemeKind::Dracula
        } else {
            ThemeKind::DefaultDark
        }
    }

    /// The preset's configuration name.
    pub fn name(&self) -> (r: &'static str)
        ensures
            match self {
                ThemeKind::DefaultDark => r@ == "default_dark"@,
                ThemeKind::Nord => r@ == "nord"@,
                ThemeKind::CatppuccinMocha => r@ == "catppuccin_mocha"@,
                ThemeKind::Dracula => r@ == "dracula"@,
            },
    {
        match self {
            ThemeKind::DefaultDark => "default_dark",
            ThemeKind::Nord => "nord",
            ThemeKind::CatppuccinMocha => "catppuccin_mocha",
            ThemeKind::Dracula => "dracula",
        }
    }

    /// The preset's display name.
    pub fn display_name(&self) -> (r: &'static str)
        ensures
            match self {
                ThemeKind::DefaultDark => r@ == "Default Dark"@,
                ThemeKind::Nord => r@ == "Nord"@,
                ThemeKind::CatppuccinMocha => r@ == "Catppuccin Mocha"@,
                ThemeKind::Dracula => r@ == "Dracula"@,
            },
    {
        match self {
            ThemeKind::DefaultDark => "Default Dark",
            ThemeKind::Nord => "Nord",
            ThemeKind::CatppuccinMocha => "Catppuccin Mocha",
            ThemeKind::Dracula => "Dracula",
        }
    }

    /// Maps a configuration name to its preset: the name is lowercased
    /// and trimmed, and an unknown one falls back to the default.
    pub fn from_name(name: &str) -> (r: ThemeKind)
        ensures
            r == ThemeKind::spec_from_canonical(trim_spec(lower_of(name@))),
    {
        let s = lowercase(name);
        let s = trim_str(s.as_str());
        if str_eq(s.as_str(), "nord") {
            ThemeKind::Nord
        } else if str_eq(s.as_str(), "catppuccin_mocha") || str_eq(s.as_str(), "catppuccin")
            || str_eq(s.as_str(), "mocha") || str_eq(s.as_str(), "catppuccin mocha") {
            ThemeKind::CatppuccinMocha
        } else if str_eq(s.as_str(), "dracula") {
            ThemeKind::Dracula
        } else {
            ThemeKind::DefaultDark
        }
    }

    /// The next preset in the fixed cycle.
    pub fn next(self) -> (r: ThemeKind)
        ensures
            r == match self {
                ThemeKind::DefaultDark => ThemeKind::Nord,
                ThemeKind::Nord => ThemeKind::CatppuccinMocha,
                ThemeKind::CatppuccinMocha => ThemeKind::Dracula,
                ThemeKind::Dracula => ThemeKind::DefaultDark,
            },
    {
        match self {
            ThemeKind::DefaultDark => ThemeKind::Nord,
            ThemeKind::Nord => ThemeKind::CatppuccinMocha,
            ThemeKind::CatppuccinMocha => ThemeKind::Dracula,
            ThemeKind::Dracula => ThemeKind::DefaultDark,
        }
    }
}

} // verus!
