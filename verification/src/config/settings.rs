//! Application settings: user interface, analyzer and key binding
//! preferences, with their defaults.

use vstd::prelude::*;

verus! {

/// All settings of the application.
#[derive(Debug, Clone, PartialEq, Eq)]
pub struct Settings {
    pub ui: UiSettings,
    pub analyzer: AnalyzerSettings,
    pub keybindings: KeybindingSettings,
}

/// User interface preferences.
#[derive(Debug, Clone, PartialEq, Eq)]
pub struct UiSettings {
    pub theme: String,
    pub show_line_numbers: bool,
    pub vim_mode: bool,
    pub tab_width: usize,
    pub wrap_text: bool,
    pub accent_color: String,
}

/// Analyzer preferences.
#[derive(Debug, Clone, PartialEq, Eq)]
pub struct AnalyzerSettings {
    pub include_private: bool,
    pub include_tests: bool,
    pub max_depth: usize,
}

/// Key binding preferences.
#[derive(Debug, Clone, PartialEq, Eq)]
pub struct KeybindingSettings {
    pub quit: String,
    pub search: String,
    pub help: String,
    pub next_tab: String,
    pub prev_tab: String,
    pub select: String,
}

impl Default for Settings {
    /// The default settings.
    fn default() -> (r: Self)
        ensures
            r.ui.theme@ == "default"@,
            r.ui.show_line_numbers == true,
            r.ui.vim_mode == false,
            r.ui.tab_width == 4,
            r.ui.wrap_text == false,
            r.ui.accent_color@ == "#4EBF71"@,
            r.analyzer.include_private == true,
            r.analyzer.include_tests == false,
            r.analyzer.max_depth == 10,
            r.keybindings.quit@ == "q"@,
            r.keybindings.search@ == "/"@,
            r.keybindings.help@ == "?"@,
            r.keybindings.next_tab@ == "Tab"@,
            r.keybindings.prev_tab@ == "Shift+Tab"@,
            r.keybindings.select@ == "Enter"@,
    {
        Settings {
            ui: UiSettings {
                theme: "default".to_owned(),
                show_line_numbers: true,
                vim_mode: false,
                tab_width: 4,
                wrap_text: false,
                accent_color: "#4EBF71".to_owned(),
            },
            analyzer: AnalyzerSettings {
                include_private: true,
                include_tests: false,
                max_depth: 10,
            },
            keybindings: KeybindingSettings {
                quit: "q".to_owned(),
                search: "/".to_owned(),
                help: "?".to_owned(),
                next_tab: "Tab".to_owned(),
                prev_tab: "Shift+Tab".to_owned(),
                select: "Enter".to_owned(),
            },
        }
    }
}

} // verus!
