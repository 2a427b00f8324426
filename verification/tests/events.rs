use lazysysd::keys::{unit_command_for_key, KeyCode, KeyEvent, KeyModifiers};
use lazysysd::models::PendingAction;
use lazysysd::state::{App, ViewMode};

#[test]
fn unit_command_bindings_match_expected_actions() {
    assert_eq!(unit_command_for_key(KeyEvent::new(KeyCode::Char('s'), KeyModifiers::empty())), Some("start"));
    assert_eq!(unit_command_for_key(KeyEvent::new(KeyCode::Char('t'), KeyModifiers::empty())), Some("stop"));
    assert_eq!(unit_command_for_key(KeyEvent::new(KeyCode::Char('r'), KeyModifiers::empty())), Some("restart"));
    assert_eq!(unit_command_for_key(KeyEvent::new(KeyCode::Char('R'), KeyModifiers::shift_only())), Some("reload"));
    assert_eq!(unit_command_for_key(KeyEvent::new(KeyCode::Char('e'), KeyModifiers::empty())), Some("enable"));
    assert_eq!(unit_command_for_key(KeyEvent::new(KeyCode::Char('d'), KeyModifiers::empty())), Some("disable"));
    assert_eq!(unit_command_for_key(KeyEvent::new(KeyCode::Char('m'), KeyModifiers::empty())), Some("mask"));
    assert_eq!(unit_command_for_key(KeyEvent::new(KeyCode::Char('u'), KeyModifiers::empty())), Some("unmask"));
    assert_eq!(unit_command_for_key(KeyEvent::new(KeyCode::Char('d'), KeyModifiers::control_only())), None);
}

#[test]
fn log_view_editor_binding_opens_text_editor() {
    let mut app = App::blank();
    app.view_mode = ViewMode::LogView;
    app.selected_unit_key.name = "ssh.service".to_string();
    app.unit_logs = vec!["line 1".to_string(), "line 2".to_string()];

    let (handled, _effect) = app.handle_key(KeyEvent::new(KeyCode::Char('e'), KeyModifiers::empty()));

    assert!(handled);
    match app.pending_action {
        Some(PendingAction::EditText { filename, content }) => {
            assert_eq!(filename, "log-ssh.service.txt");
            assert_eq!(content, "line 1\nline 2");
        }
        _ => panic!("expected EditText pending action"),
    }
}

#[test]
fn quit_key_leaves_the_loop_in_the_unit_list() {
    let mut app = App::blank();
    let (leave, _effect) = app.handle_key(KeyEvent::new(KeyCode::Char('q'), KeyModifiers::empty()));
    assert!(leave);
    assert!(app.pending_action.is_none());
}

#[test]
fn quit_key_leaves_the_loop_in_the_log_view() {
    let mut app = App::blank();
    app.view_mode = ViewMode::LogView;
    app.unit_logs = vec!["line 1".to_string()];
    let (leave, _effect) = app.handle_key(KeyEvent::new(KeyCode::Char('q'), KeyModifiers::empty()));
    assert!(leave);
    assert!(app.pending_action.is_none());
    assert!(app.view_mode == ViewMode::LogView);
}

#[test]
fn quit_key_leaves_the_loop_in_the_file_view() {
    let mut app = App::blank();
    app.view_mode = ViewMode::FileView;
    let (leave, _effect) = app.handle_key(KeyEvent::new(KeyCode::Char('q'), KeyModifiers::empty()));
    assert!(leave);
    assert!(app.pending_action.is_none());
}

#[test]
fn escape_returns_from_the_log_view_to_the_unit_list() {
    let mut app = App::blank();
    app.view_mode = ViewMode::LogView;
    let (leave, _effect) = app.handle_key(KeyEvent::new(KeyCode::Esc, KeyModifiers::empty()));
    assert!(!leave);
    assert!(app.view_mode == ViewMode::UnitList);
}

#[test]
fn v_toggles_visual_select() {
    let mut app = App::blank();
    app.view_mode = ViewMode::LogView;
    app.unit_logs = vec!["line 1".to_string(), "line 2".to_string()];
    let (leave, _effect) = app.handle_key(KeyEvent::new(KeyCode::Char('v'), KeyModifiers::empty()));
    assert!(!leave);
    assert!(app.visual_select);
    let (leave, _effect) = app.handle_key(KeyEvent::new(KeyCode::Char('v'), KeyModifiers::empty()));
    assert!(!leave);
    assert!(!app.visual_select);
    assert!(app.view_mode == ViewMode::LogView);
}

#[test]
fn shift_v_toggles_line_wise_select() {
    let mut app = App::blank();
    app.view_mode = ViewMode::LogView;
    app.unit_logs = vec!["line 1".to_string(), "line 2".to_string()];
    let shift_v = KeyEvent::new(KeyCode::Char('V'), KeyModifiers::shift_only());
    let (leave, _effect) = app.handle_key(shift_v);
    assert!(!leave);
    assert!(app.visual_line_select);
    let (leave, _effect) = app.handle_key(shift_v);
    assert!(!leave);
    assert!(!app.visual_line_select);
    assert!(app.selected_log_line_marks.is_empty());
}
