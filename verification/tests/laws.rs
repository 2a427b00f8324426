use lazysysd::commands::normalize_edit_content;
use lazysysd::display::{clip_text, highlight_unit_file_line, scope_color_of, active_state_color_of};
use lazysysd::models::{UnitActiveState, UnitScope, UnitType};
use lazysysd::state::{App, FilterMenu};
use lazysysd::styles::{clip_line, highlight_exact_match, line_of, StyledSpan};
use lazysysd::terminal::normalize_pty_output;
use lazysysd::unit_files::{build_unit_file_state_map, enablement_state_cache, resolve_enablement_state_cached};

fn text_of(spans: &[StyledSpan]) -> String {
    spans.iter().map(|s| s.text.as_str()).collect()
}

#[test]
fn labels_round_trip_and_share_colours() {
    for t in [UnitType::Socket, UnitType::Swap, UnitType::Unknown] {
        assert_eq!(UnitType::from_str(t.as_str()), t);
    }
    for s in [UnitScope::Global, UnitScope::Session] {
        assert_eq!(scope_color_of(s.as_str()), s.color());
    }
    for a in [UnitActiveState::Failed, UnitActiveState::Reloading, UnitActiveState::Unknown] {
        assert_eq!(active_state_color_of(a.as_str()), a.color());
    }
}

#[test]
fn normalizing_twice_changes_nothing() {
    let once = normalize_edit_content("x=1");
    assert_eq!(normalize_edit_content(&once), once);
    assert!(once.ends_with('\n'));
}

#[test]
fn marking_matches_keeps_the_text() {
    let line = line_of(vec![StyledSpan::raw("abcabc"), StyledSpan::raw("cab")]);
    let marked = highlight_exact_match(line, "ab");
    assert_eq!(text_of(&marked.spans), "abcabccab");
    let file = highlight_unit_file_line("  Environment=A=b c", false);
    assert_eq!(text_of(&file.spans), "  Environment=A=b c");
}

#[test]
fn cleaned_terminal_output_has_no_carriage_return() {
    assert!(!normalize_pty_output(b"a\r\r\nb\r").contains('\r'));
}

#[test]
fn clipping_never_exceeds_the_width() {
    for w in 0..8 {
        assert!(clip_text("abcdefghij", w).chars().count() <= w);
        let clipped = clip_line(line_of(vec![StyledSpan::raw("abcd"), StyledSpan::raw("efghij")]), w);
        assert!(text_of(&clipped.spans).chars().count() <= w);
    }
}

#[test]
fn search_cycling_lands_on_matches() {
    let mut app = App::blank();
    app.unit_logs = vec!["x".to_string(), "foo".to_string(), "y".to_string(), "foo".to_string()];
    app.log_search_query = "foo".to_string();
    app.log_selected = Some(3);
    app.cycle_log_search_match(true);
    assert_eq!(app.log_selected, Some(1));
    app.cycle_log_search_match(false);
    assert_eq!(app.log_selected, Some(3));
}

#[test]
fn marks_never_exceed_two() {
    let mut app = App::blank();
    app.unit_logs = (0..5).map(|i| i.to_string()).collect();
    for i in [0, 3, 4, 1] {
        app.log_selected = Some(i);
        app.toggle_log_line_mark();
        assert!(app.selected_log_line_marks.len() <= 2);
    }
    app.log_selected = Some(1);
    app.toggle_log_line_mark();
    assert_eq!(app.selected_log_line_marks, vec![4]);
}

#[test]
fn units_without_files_always_resolve() {
    let states = build_unit_file_state_map(Vec::new());
    let cache = enablement_state_cache();
    assert_eq!(resolve_enablement_state_cached(&cache, "global", "user.slice", &states).as_deref(), Some("static"));
    assert_eq!(resolve_enablement_state_cached(&cache, "global", "plain", &states).as_deref(), Some("static"));
}

#[test]
fn picking_a_line_twice_restores_the_picks() {
    let mut app = App::blank();
    app.unit_logs = (0..4).map(|i| i.to_string()).collect();
    app.selected_log_lines = vec![0, 3];
    app.log_selected = Some(2);
    app.toggle_selected_log_line();
    assert_eq!(app.selected_log_lines, vec![0, 2, 3]);
    app.toggle_selected_log_line();
    assert_eq!(app.selected_log_lines, vec![0, 3]);
}

#[test]
fn emptied_cache_asks_again() {
    use_cache_after_enable();
}

fn use_cache_after_enable() {
    let states = build_unit_file_state_map(Vec::new());
    let mut cache = enablement_state_cache();
    lazysysd::unit_files::cache_enablement_state(&mut cache, "global", "a.service", "enabled");
    assert!(resolve_enablement_state_cached(&cache, "global", "a.service", &states).is_some());
    lazysysd::unit_files::complete_unit_action(&mut cache, lazysysd::models::UnitAction::Enable, Ok(()));
    assert!(resolve_enablement_state_cached(&cache, "global", "a.service", &states).is_none());
}

#[test]
fn preferred_hotkeys_of_a_menu_are_distinct_and_never_a() {
    for menu in [FilterMenu::Active, FilterMenu::Enablement, FilterMenu::Load, FilterMenu::Scope] {
        let labels = menu.preferred_order();
        let mut seen: Vec<char> = Vec::new();
        for label in labels {
            for c in menu.preferred_hotkeys(label) {
                assert!(c != 'a');
                assert!(c.is_ascii_lowercase());
                assert!(!seen.contains(&c), "{label}");
                seen.push(c);
            }
        }
    }
    assert_eq!(FilterMenu::Scope.preferred_hotkeys("foo"), Vec::<char>::new());
}
