use lazysysd::keys::{KeyCode, KeyEvent, KeyModifiers};
use lazysysd::models::{EditRequest, UnitEditMode, UnitInfo};
use lazysysd::events::Effect;
use lazysysd::search::SearchInputAction;
use lazysysd::state::{build_override_template, App, FileViewState, ViewMode};

fn test_app(units: Vec<UnitInfo>) -> App {
    let mut app = App::blank();
    app.units = units;
    app.is_loading = false;
    app.update_filter();
    app
}

fn unit(name: &str, description: &str, load_state: &str, active_state: &str, enablement_state: &str, path: &str) -> UnitInfo {
    UnitInfo {
        name: name.to_string(),
        description: description.to_string(),
        scope: "global".to_string(),
        load_state: load_state.to_string(),
        active_state: active_state.to_string(),
        enablement_state: enablement_state.to_string(),
        sub_state: active_state.to_string(),
        path: path.to_string(),
    }
}

#[test]
fn finish_edit_request_creates_review_and_discard_restores_preview() {
    let mut app = test_app(vec![unit("ssh.service", "Secure Shell", "loaded", "active", "enabled", "/test/unit/ssh")]);
    app.unit_file_content = "[Service]\nExecStart=/usr/bin/ssh\n".to_string();
    app.unit_file_path = "/usr/lib/systemd/system/ssh.service".to_string();

    app.finish_edit_request(
        EditRequest {
            unit_name: "ssh.service".to_string(),
            scope: "global".to_string(),
            mode: UnitEditMode::Override,
            initial_content: "# draft\n".to_string(),
            restore_content: app.unit_file_content.clone(),
            restore_path: app.unit_file_path.clone(),
        },
        "[Service]\nEnvironment=DEBUG=1\n".to_string(),
    );

    assert!(app.pending_edit_review.is_some());
    assert_eq!(app.unit_file_path, "Draft Override: ssh.service");

    app.discard_edit_review();

    assert!(app.pending_edit_review.is_none());
    assert_eq!(app.unit_file_path, "/usr/lib/systemd/system/ssh.service");
    assert_eq!(app.unit_file_content, "[Service]\nExecStart=/usr/bin/ssh\n");
}

#[test]
fn select_filtered_unit_index_tracks_selected_unit_key() {
    let mut app = test_app(vec![
        unit("alpha.service", "Alpha", "loaded", "active", "enabled", "/test/unit/alpha"),
        unit("beta.service", "Beta", "loaded", "active", "enabled", "/test/unit/beta"),
    ]);

    app.select_filtered_unit_index(Some(1));

    assert_eq!(app.selected_unit_key.name, "beta.service");
    assert_eq!(app.selected_unit_key.scope, "global");
    assert_eq!(app.selected_unit_key.path, "/test/unit/beta");
    assert_eq!(app.get_selected_unit().map(|unit| unit.name.as_str()), Some("beta.service"));
}

#[test]
fn selected_log_line_marks_keep_at_most_two_entries() {
    let mut app = test_app(vec![unit("alpha.service", "Alpha", "loaded", "active", "enabled", "/test/unit/alpha")]);
    app.unit_logs = vec!["one".to_string(), "two".to_string(), "three".to_string()];
    app.log_selected = Some(0);

    app.toggle_log_line_mark();
    app.log_selected = Some(1);
    app.toggle_log_line_mark();
    app.log_selected = Some(2);
    app.toggle_log_line_mark();

    assert_eq!(app.selected_log_line_marks, vec![1, 2]);
    assert_eq!(app.selected_log_line_range(), Some((1, 2)));
    assert_eq!(app.selected_log_lines_text().as_deref(), Some("two\nthree"));
}

#[test]
fn log_search_helpers_match_exact_text_and_cycle() {
    let mut app = test_app(vec![unit("alpha.service", "Alpha", "loaded", "active", "enabled", "/test/unit/alpha")]);
    app.unit_logs = vec!["aaa foo aaa".to_string(), "foo bar".to_string(), "bar foo".to_string(), "baz".to_string()];
    app.log_search_query = "foo".to_string();

    assert_eq!(app.log_search_matches(), vec![0, 1, 2]);

    app.log_selected = Some(0);
    app.cycle_log_search_match(true);
    assert_eq!(app.log_selected, Some(1));

    app.cycle_log_search_match(false);
    assert_eq!(app.log_selected, Some(0));
}

#[test]
fn state_file_search_helpers_match_exact_text_and_cycle() {
    let mut app = test_app(vec![unit("alpha.service", "Alpha", "loaded", "active", "enabled", "/test/unit/alpha")]);
    app.unit_file_content = "[Service]\nExecStart=/usr/bin/foo\nExecStartPost=/usr/bin/foo --flag\n".to_string();
    app.file_search_query = "ExecStart".to_string();

    assert_eq!(app.file_search_matches(), vec![1, 2]);

    app.file_scroll = 0;
    app.cycle_file_search_match(true);
    assert_eq!(app.file_search_match, Some(1));
    assert_eq!(app.file_scroll, 1);

    app.cycle_file_search_match(true);
    assert_eq!(app.file_search_match, Some(2));
    assert_eq!(app.file_scroll, 2);

    app.cycle_file_search_match(false);
    assert_eq!(app.file_search_match, Some(1));
    assert_eq!(app.file_scroll, 1);
}

#[test]
fn entering_search_mode_preserves_existing_queries() {
    let mut app = test_app(vec![unit("alpha.service", "Alpha", "loaded", "active", "enabled", "/test/unit/alpha")]);

    app.log_search_query = "foo".to_string();
    app.log_search_mode = false;
    app.file_search_query = "bar".to_string();
    app.file_search_mode = false;

    app.log_search_mode = true;
    app.file_search_mode = true;

    assert_eq!(app.log_search_query, "foo");
    assert_eq!(app.file_search_query, "bar");
}

#[test]
fn edit_unit_search_key_moves_cursor_and_inserts_text() {
    let mut app = App::blank();
    app.search_query = "foo".to_string();
    app.search_cursor = 1;

    app.edit_unit_search_key(KeyEvent::new(KeyCode::Left, KeyModifiers::empty()));
    assert_eq!(app.search_cursor, 0);

    app.edit_unit_search_key(KeyEvent::new(KeyCode::Char('x'), KeyModifiers::empty()));
    assert_eq!(app.search_query, "xfoo");
    assert_eq!(app.search_cursor, 1);
}

#[test]
fn backspace_removes_the_character_before_the_cursor() {
    let mut app = App::blank();
    app.search_query = "héllo".to_string();
    app.search_cursor = 2;
    app.edit_unit_search_key(KeyEvent::new(KeyCode::Backspace, KeyModifiers::empty()));
    assert_eq!(app.search_query, "hllo");
    assert_eq!(app.search_cursor, 1);
    app.edit_unit_search_key(KeyEvent::new(KeyCode::Right, KeyModifiers::empty()));
    app.edit_unit_search_key(KeyEvent::new(KeyCode::Right, KeyModifiers::empty()));
    app.edit_unit_search_key(KeyEvent::new(KeyCode::Right, KeyModifiers::empty()));
    app.edit_unit_search_key(KeyEvent::new(KeyCode::Right, KeyModifiers::empty()));
    assert_eq!(app.search_cursor, 4);
}

#[test]
fn visual_selection_toggles_lines_in_order() {
    let mut app = test_app(vec![unit("alpha.service", "Alpha", "loaded", "active", "enabled", "/a")]);
    app.unit_logs = vec!["one".to_string(), "two".to_string(), "three".to_string()];
    app.log_selected = Some(2);
    app.toggle_selected_log_line();
    app.log_selected = Some(0);
    app.toggle_selected_log_line();
    assert_eq!(app.selected_log_lines, vec![0, 2]);
    assert_eq!(app.visual_selection_text().as_deref(), Some("one\nthree"));
    app.toggle_selected_log_line();
    assert_eq!(app.selected_log_lines, vec![2]);
}

#[test]
fn override_template_names_unit_and_source() {
    let t = build_override_template("ssh.service", "/usr/lib/systemd/system/ssh.service");
    assert_eq!(
        t,
        "# Drop-in override for ssh.service\n# Add only the sections and keys you want to override.\n# Source fragment: /usr/lib/systemd/system/ssh.service\n# Example:\n# [Service]\n# Environment=KEY=value\n"
    );
}

#[test]
fn files_file_search_helpers_match_exact_text_and_cycle() {
    let mut app = test_app(vec![unit("alpha.service", "Alpha", "loaded", "active", "enabled", "/test/unit/alpha")]);
    app.unit_file_content = "[Service]\nExecStart=/usr/bin/foo\nExecStartPost=/usr/bin/foo --flag\n".to_string();
    app.file_search_query = "ExecStart".to_string();

    assert_eq!(app.file_search_matches(), vec![1, 2]);

    app.file_scroll = 0;
    app.cycle_file_search_match(true);
    assert_eq!(app.file_search_match, Some(1));
    assert_eq!(app.file_scroll, 1);

    app.cycle_file_search_match(true);
    assert_eq!(app.file_search_match, Some(2));
    assert_eq!(app.file_scroll, 2);

    app.cycle_file_search_match(false);
    assert_eq!(app.file_search_match, Some(1));
    assert_eq!(app.file_scroll, 1);
}

#[test]
fn move_scroll_stays_within_the_file() {
    let mut view = FileViewState::default();
    view.content = "a\nb\nc\n".to_string();
    view.move_scroll(1);
    assert_eq!(view.scroll, 1);
    view.move_scroll(10);
    assert_eq!(view.scroll, 2);
    view.move_scroll(-5);
    assert_eq!(view.scroll, 0);
    let mut empty = FileViewState::default();
    empty.move_scroll(3);
    assert_eq!(empty.scroll, 0);
}

#[test]
fn search_keys_edit_the_search_of_the_current_view() {
    let mut app = App::blank();
    app.view_mode = ViewMode::LogView;
    app.log_search_query = "ab".to_string();
    app.log_search_cursor = 2;
    assert_eq!(app.handle_search_key(KeyEvent::new(KeyCode::Left, KeyModifiers::empty())), Some(SearchInputAction::Cursor));
    assert_eq!(app.log_search_cursor, 1);
    assert_eq!(app.handle_search_key(KeyEvent::new(KeyCode::Char('x'), KeyModifiers::empty())), Some(SearchInputAction::Edit));
    assert_eq!(app.log_search_query, "axb");
    assert_eq!(app.search_query, "");
    assert_eq!(app.handle_search_key(KeyEvent::new(KeyCode::Enter, KeyModifiers::empty())), None);
    assert_eq!(app.log_search_query, "axb");
}

#[test]
fn entering_the_file_view_loads_the_selected_unit() {
    let mut empty = App::blank();
    assert!(matches!(empty.enter_file_view(), Effect::Idle));
    assert_eq!(empty.view_mode, ViewMode::UnitList);
    let mut app = test_app(vec![unit("alpha.service", "Alpha", "loaded", "active", "enabled", "/test/unit/alpha")]);
    app.select_filtered_unit_index(Some(0));
    app.unit_file_content = "old".to_string();
    match app.enter_file_view() {
        Effect::FetchUnitFile(u) => assert_eq!(u.name, "alpha.service"),
        _ => panic!("expected a file fetch"),
    }
    assert_eq!(app.view_mode, ViewMode::FileView);
    assert!(app.unit_file_content.is_empty());
    assert!(app.is_loading);
}

#[test]
fn starting_and_clearing_the_unit_search() {
    let mut app = App::blank();
    app.search_query = "ab".to_string();
    app.start_search();
    assert!(app.is_searching);
    assert_eq!(app.search_cursor, 2);
    app.clear_search();
    assert!(!app.is_searching);
    assert_eq!(app.search_query, "");
    assert_eq!(app.search_cursor, 0);
}

#[test]
fn byte_index_of_a_character() {
    use_byte_index();
}

fn use_byte_index() {
    assert_eq!(lazysysd::search::char_to_byte_index("héllo", 0), 0);
    assert_eq!(lazysysd::search::char_to_byte_index("héllo", 2), 3);
    assert_eq!(lazysysd::search::char_to_byte_index("héllo", 9), 6);
}

#[test]
fn bottom_of_a_long_file_lands_on_its_last_line() {
    let mut app = App::blank();
    app.view_mode = ViewMode::FileView;
    app.unit_file_content = "x\n".repeat(65536);
    app.last_area_height = 0;
    app.perform_nav(lazysysd::state::NavAction::Bottom);
    assert_eq!(app.file_scroll, 65535);
    app.unit_file_content = "x\n".repeat(70000);
    app.last_area_height = 10;
    app.perform_nav(lazysysd::state::NavAction::Bottom);
    assert_eq!(app.file_scroll, 65535);
    app.unit_file_content = "x\n".repeat(30);
    app.last_area_height = 10;
    app.perform_nav(lazysysd::state::NavAction::Bottom);
    assert_eq!(app.file_scroll, 20);
}
