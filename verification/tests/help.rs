//! The help.

use fin::tui::help::{build_lines, help_sections};

#[test]
fn every_section_has_at_least_one_entry() {
    for s in &help_sections() {
        assert!(
            !s.entries.is_empty(),
            "section '{}' has no entries",
            s.title
        );
    }
}

#[test]
fn every_entry_has_non_empty_key_and_description() {
    for s in &help_sections() {
        for e in &s.entries {
            assert!(!e.key.trim().is_empty(), "empty key in section '{}'", s.title);
            assert!(
                !e.description.trim().is_empty(),
                "empty description for '{}'",
                e.key
            );
        }
    }
}

#[test]
fn help_advertises_its_own_toggle_key() {
    // Would be very confusing to open a help panel and NOT tell the
    // user how to close it. Guard against a future refactor dropping
    // the toggle documentation.
    let has_toggle = help_sections()
        .iter()
        .flat_map(|s| s.entries.iter())
        .any(|e| e.key == "?");
    assert!(has_toggle);
}

#[test]
fn build_lines_starts_with_a_section_header() {
    // First rendered row is a section title — not a blank spacer, so
    // the popup doesn't waste a row at the top.
    let lines = build_lines(80);
    let first = lines
        .first()
        .expect("build_lines produced no output")
        .text();
    assert!(first.trim_start().starts_with("Navigation"));
}
