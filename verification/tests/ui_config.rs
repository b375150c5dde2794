//! Tests for settings defaults and interface state types.

use oracle::config::settings::Settings;
use oracle::ui::app::{Focus, Tab};
use oracle::ui::search::{filter_candidates, CandidateKind, CompletionCandidate};
use oracle::ui::theme::ThemeKind;

#[test]
fn test_settings_default() {
    let s = Settings::default();
    assert_eq!(s.ui.theme, "default");
    assert!(s.ui.show_line_numbers);
    assert_eq!(s.keybindings.quit, "q");
    assert_eq!(s.keybindings.search, "/");
    assert!(s.analyzer.include_private);
    assert_eq!(s.analyzer.max_depth, 10);
}

#[test]
fn test_theme_kind_from_name() {
    assert_eq!(ThemeKind::from_name("default"), ThemeKind::DefaultDark);
    assert_eq!(ThemeKind::from_name("default_dark"), ThemeKind::DefaultDark);
    assert_eq!(ThemeKind::from_name("nord"), ThemeKind::Nord);
    assert_eq!(ThemeKind::from_name("Nord"), ThemeKind::Nord);
    assert_eq!(
        ThemeKind::from_name("catppuccin_mocha"),
        ThemeKind::CatppuccinMocha
    );
    assert_eq!(ThemeKind::from_name("mocha"), ThemeKind::CatppuccinMocha);
    assert_eq!(ThemeKind::from_name("dracula"), ThemeKind::Dracula);
    assert_eq!(ThemeKind::from_name("unknown"), ThemeKind::DefaultDark);
}

#[test]
fn test_theme_kind_next_cycles() {
    let first = ThemeKind::DefaultDark;
    let second = first.next();
    assert_ne!(first, second);
    let mut k = ThemeKind::DefaultDark;
    for _ in 0..4 {
        k = k.next();
    }
    assert_eq!(k, ThemeKind::DefaultDark);
}

#[test]
fn test_tab_cycling() {
    assert_eq!(Tab::all().len(), 4);
    assert_eq!(Tab::Types.index(), 0);
    assert_eq!(Tab::from_index(7), Tab::Crates);
    assert_eq!(Tab::Crates.next(), Tab::Types);
    assert_eq!(Tab::Types.prev(), Tab::Crates);
    assert_eq!(Tab::Modules.next(), Tab::Crates);
}

#[test]
fn test_focus_cycle_includes_chat_only_when_open() {
    assert_eq!(Focus::Inspector.next(false), Focus::Search);
    assert_eq!(Focus::Inspector.next(true), Focus::CopilotChat);
    assert_eq!(Focus::CopilotChat.next(true), Focus::Search);
    assert_eq!(Focus::Search.prev(false), Focus::Inspector);
    assert_eq!(Focus::Search.prev(true), Focus::CopilotChat);
}

#[test]
fn test_candidate_kind_icons() {
    assert_eq!(CandidateKind::Function.icon(), "fn");
    assert_eq!(CandidateKind::Crate.icon(), "cr");
    assert_eq!(CandidateKind::Other.icon(), "  ");
}

fn candidate(primary: &str) -> CompletionCandidate {
    CompletionCandidate {
        primary: primary.to_string(),
        secondary: None,
        kind: CandidateKind::Function,
        score: 0,
    }
}

#[test]
fn test_filter_candidates_matches_and_ranks() {
    let candidates = vec![
        candidate("map"),
        candidate("main_loop"),
        candidate("filter"),
    ];
    let all = filter_candidates(&candidates, "");
    assert_eq!(all.len(), 3);
    let hits = filter_candidates(&candidates, "ma");
    assert_eq!(hits.len(), 2);
    for pair in hits.windows(2) {
        assert!(pair[0].score >= pair[1].score, "sorted by score descending");
    }
    for h in &hits {
        assert!(h.primary.contains('m'));
    }
    assert!(filter_candidates(&candidates, "zzz").is_empty());
}
