use lazysysd::models::{UnitEditMode, EditReview, UnitInfo};
use lazysysd::screens::{
    auth_prompt_waiting, edit_review_text, file_view_title, filter_menu_area, filter_menu_item, render_search_text, search_segment_style,
    shortcut, unit_list_title,
};
use lazysysd::state::{App, FilterMenu, FilterMenuOption, ViewMode};
use lazysysd::styles::{search_cursor_style, SpanStyle};
use lazysysd::models::Color;

fn unit() -> UnitInfo {
    UnitInfo {
        name: "ssh.service".to_string(),
        description: "Secure Shell".to_string(),
        scope: "global".to_string(),
        load_state: "loaded".to_string(),
        active_state: "failed".to_string(),
        enablement_state: "enabled".to_string(),
        sub_state: "dead".to_string(),
        path: "/u/ssh".to_string(),
    }
}

#[test]
fn help_depends_on_the_view() {
    let mut app = App::blank();
    let (nav, actions, leave) = app.help_columns();
    assert_eq!(nav.len(), 4);
    assert_eq!(actions[0], ("/", "Search"));
    assert_eq!(leave, vec![("Y", "Copy unit file path"), ("q", "Quit")]);
    app.view_mode = ViewMode::LogView;
    app.log_search_query = "x".to_string();
    let (_, actions, _) = app.help_columns();
    assert_eq!(actions.last(), Some(&("n/N", "Next/prev")));
    app.log_search_mode = true;
    let (cursor, _, esc) = app.help_columns();
    assert_eq!(cursor, vec![("Left/Right", "Move cursor")]);
    assert_eq!(esc, vec![("Esc", "Clear")]);
}

#[test]
fn shortcuts_render_key_then_description() {
    let line = shortcut("q", "Quit");
    assert_eq!(line.spans[0].text, "q");
    assert_eq!(line.spans[1].text, ": Quit");
    assert_eq!(line.spans[0].style.fg, Some(Color::Cyan));
}

#[test]
fn search_text_marks_the_cursor() {
    let line = render_search_text("ab", 1);
    let texts: Vec<&str> = line.spans.iter().map(|s| s.text.as_str()).collect();
    assert_eq!(texts, vec!["a", "b"]);
    assert_eq!(line.spans[1].style, search_cursor_style());
    let end = render_search_text("ab", 2);
    assert_eq!(end.spans.len(), 3);
    assert_eq!(end.spans[2].text, " ");
    assert_eq!(search_segment_style(true, false).fg, Some(Color::Yellow));
    assert_eq!(search_segment_style(false, true).fg, Some(Color::Cyan));
    assert_eq!(search_segment_style(false, false), SpanStyle::new());
}

#[test]
fn search_segment_shows_placeholder_until_typing() {
    let mut app = App::blank();
    let (line, _) = app.search_segment_content();
    assert_eq!(line.spans[0].text, "Type / to search units...");
    app.view_mode = ViewMode::FileView;
    app.file_search_query = "Exec".to_string();
    app.file_search_cursor = 4;
    let (line, border) = app.search_segment_content();
    assert_eq!(line.spans.len(), 5);
    assert_eq!(border.fg, Some(Color::Cyan));
}

#[test]
fn status_segments_show_filters_or_the_selected_unit() {
    let mut app = App::blank();
    app.units = vec![unit()];
    app.update_filter();
    app.select_filtered_unit_index(Some(0));
    app.active_state_filter = Some("failed".to_string());
    let spec = app.status_segment_spec(FilterMenu::Active);
    assert_eq!(spec.value, "failed");
    assert_eq!(spec.border_style.fg, Some(Color::Cyan));
    let load = app.status_segment_spec(FilterMenu::Load);
    assert_eq!(load.value, "all");
    assert_eq!(load.value_style.fg, Some(Color::DarkGray));
    app.view_mode = ViewMode::LogView;
    let active = app.status_segment_spec(FilterMenu::Active);
    assert_eq!(active.value, "failed (dead)");
    assert_eq!(active.value_style.fg, Some(Color::Red));
}

#[test]
fn menu_items_and_titles() {
    let option = FilterMenuOption { hotkey: 'f', label: "failed".to_string(), value: Some("failed".to_string()), selected: true, count: 12 };
    let line = filter_menu_item(&option);
    assert_eq!(line.spans[0].text, "◉ [f] ");
    assert_eq!(line.spans[1].text, "failed (12)");
    assert_eq!(unit_list_title(3, 140), " Units (3/140) ");
    assert_eq!(file_view_title("/etc/x.service"), " Unit File: /etc/x.service ");
    let review = EditReview {
        unit_name: "ssh.service".to_string(),
        scope: "global".to_string(),
        mode: UnitEditMode::Override,
        edited_content: String::new(),
        restore_content: String::new(),
        restore_path: String::new(),
    };
    let (title, body) = edit_review_text(&review);
    assert_eq!(title, " Apply override ");
    assert_eq!(body[0], "Unit: ssh.service");
    assert_eq!(body[1], "Mode: override via systemctl edit");
    assert!(auth_prompt_waiting(" \n\t"));
    assert!(!auth_prompt_waiting("Password: "));
}

#[test]
fn filter_menu_sits_under_its_segment() {
    let app = App::blank();
    let options = app.filter_menu_options(FilterMenu::Scope);
    let count = options.len() as u16;
    let area = filter_menu_area((10, 0, 20, 3), 3, 100, 40, &options).unwrap();
    assert_eq!(area, (10, 3, 20, count + 2));
    let narrow = filter_menu_area((95, 0, 4, 3), 3, 100, 40, &options).unwrap();
    assert_eq!(narrow.2, 5);
    let low = filter_menu_area((0, 30, 20, 3), 3, 100, 33, &options).unwrap();
    assert_eq!(low.1, 32);
    assert_eq!(low.3, 3);
}
