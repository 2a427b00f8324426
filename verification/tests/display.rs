use lazysysd::ansi::{color_from_name, line_from_ansi};
use lazysysd::display::{
    centered_rect, header_segment_areas, help_column_areas, unit_row_column_widths,
    active_state_color_of, clip_text, enablement_state_color_of, format_cell, format_unit_row, highlight_unit_file,
    highlight_unit_file_line, line_continues, load_state_color_of, scope_color_of, CellAlign,
};
use lazysysd::models::{Color, UnitInfo};
use lazysysd::state::App;
use lazysysd::styles::{
    apply_selected_style, clip_line, highlight_exact_match, line_of, search_match_style, SpanStyle, StyledSpan, BOLD,
    ITALIC,
};

fn unit() -> UnitInfo {
    UnitInfo {
        name: "ssh.service".to_string(),
        description: "Secure Shell".to_string(),
        scope: "global".to_string(),
        load_state: "loaded".to_string(),
        active_state: "active".to_string(),
        enablement_state: "enabled".to_string(),
        sub_state: "running".to_string(),
        path: "/test/unit/ssh".to_string(),
    }
}

#[test]
fn highlights_key_value_lines() {
    let line = highlight_unit_file_line("ExecStart=/usr/bin/true", false);

    assert_eq!(line.spans.len(), 4);
    assert_eq!(line.spans[1].text, "ExecStart");
    assert_eq!(line.spans[3].text, "/usr/bin/true");
    assert_eq!(line.spans[1].style.fg, Some(Color::Yellow));
}

#[test]
fn highlights_comments_and_sections() {
    let comment = highlight_unit_file_line("# docs", false);
    let section = highlight_unit_file_line("[Service]", false);

    assert_eq!(comment.spans[0].style.fg, Some(Color::DarkGray));
    assert_eq!(section.spans[0].style.fg, Some(Color::Cyan));
}

#[test]
fn treats_continued_lines_as_values() {
    let lines = highlight_unit_file("ExecStart=/usr/bin/foo \\\n    --flag");

    assert_eq!(lines.len(), 2);
    assert_eq!(lines[1].spans[0].style.fg, Some(Color::White));
}

#[test]
fn selected_row_gets_action_line_with_detail_prefix() {
    let lines = format_unit_row(&unit(), &[10, 10, 10, 10, 10], 80, true);

    assert_eq!(lines.len(), 3);
    assert!(lines[1].spans[0].text.starts_with(" ╟ "));
    assert!(lines[2].spans[0].text.starts_with(" ╙ "));
    assert!(lines[2].spans.iter().any(|span| span.text == "Actions: "));
}

#[test]
fn unselected_row_has_padded_cells() {
    let lines = format_unit_row(&unit(), &[14, 8, 18, 9, 8], 80, false);
    assert_eq!(lines.len(), 1);
    let cells: Vec<&str> = lines[0].spans.iter().map(|s| s.text.as_str()).collect();
    assert_eq!(cells, vec!["ssh.service   ", " global ", " active (running) ", " enabled ", " loaded "]);
    assert_eq!(lines[0].spans[0].style.add_modifier, BOLD);
    assert_eq!(lines[0].spans[1].style.fg, Some(Color::Blue));
    assert_eq!(lines[0].spans[2].style.fg, Some(Color::Green));
}

#[test]
fn clip_text_and_cells() {
    assert_eq!(clip_text("abcdef", 10), "abcdef");
    assert_eq!(clip_text("abcdef", 5), "ab...");
    assert_eq!(clip_text("abcdef", 3), "abc");
    assert_eq!(clip_text("abcdef", 0), "");
    assert_eq!(format_cell("ab", 6, CellAlign::Left), "ab    ");
    assert_eq!(format_cell("ab", 7, CellAlign::Center), "  ab   ");
    assert_eq!(format_cell("abcdefgh", 6, CellAlign::Center), "abc...");
    assert_eq!(format_cell("ab", 0, CellAlign::Left), "");
}

#[test]
fn clip_line_cuts_the_span_that_overflows() {
    let bold = SpanStyle::new().add_modifier(BOLD);
    let line = line_of(vec![StyledSpan::raw("abc"), StyledSpan::styled("defghij", bold)]);
    let clipped = clip_line(line, 8);
    assert_eq!(clipped.spans.len(), 2);
    assert_eq!(clipped.spans[0].text, "abc");
    assert_eq!(clipped.spans[1].text, "de...");
    assert_eq!(clipped.spans[1].style, bold);
    let short = clip_line(line_of(vec![StyledSpan::raw("abc"), StyledSpan::raw("defghij")]), 5);
    assert_eq!(short.spans[1].text, "de");
    let none = clip_line(line_of(vec![StyledSpan::raw("abc")]), 0);
    assert!(none.spans.is_empty());
}

#[test]
fn state_colours_follow_labels() {
    assert_eq!(scope_color_of("session"), Color::Cyan);
    assert_eq!(scope_color_of("other"), Color::White);
    assert_eq!(active_state_color_of("reloading"), Color::Yellow);
    assert_eq!(enablement_state_color_of("indirect"), Color::Cyan);
    assert_eq!(enablement_state_color_of("bogus"), Color::White);
    assert_eq!(load_state_color_of("error"), Color::Red);
}

#[test]
fn continued_lines_end_in_backslash() {
    assert!(line_continues("ExecStart=/bin/a \\  "));
    assert!(!line_continues("ExecStart=/bin/a"));
    assert!(!line_continues("   "));
}

#[test]
fn unit_file_indentation_and_blank_lines() {
    let line = highlight_unit_file_line("  Key=a=b", false);
    let texts: Vec<&str> = line.spans.iter().map(|s| s.text.as_str()).collect();
    assert_eq!(texts, vec!["  ", "Key", "=", "a=b"]);
    assert!(highlight_unit_file_line("", false).spans.is_empty());
    assert_eq!(highlight_unit_file_line("   ", false).spans.len(), 1);
    let plain = highlight_unit_file_line("no setting here", false);
    assert_eq!(plain.spans.len(), 1);
    assert_eq!(plain.spans[0].style, SpanStyle::new());
    let comment = highlight_unit_file_line("  ; note", false);
    assert_eq!(comment.spans[0].style.add_modifier, ITALIC);
}

#[test]
fn exact_matches_are_marked_in_every_span() {
    let line = line_of(vec![StyledSpan::raw("foo bar foo"), StyledSpan::raw("xfoo")]);
    let marked = highlight_exact_match(line, "foo");
    let texts: Vec<&str> = marked.spans.iter().map(|s| s.text.as_str()).collect();
    assert_eq!(texts, vec!["foo", " bar ", "foo", "x", "foo"]);
    assert_eq!(marked.spans[0].style, search_match_style());
    assert_eq!(marked.spans[1].style, SpanStyle::new());
    let untouched = highlight_exact_match(line_of(vec![StyledSpan::raw("abc")]), "");
    assert_eq!(untouched.spans.len(), 1);
}

#[test]
fn selected_lines_become_bold_italic() {
    let line = line_of(vec![StyledSpan::raw("a")]);
    let styled = apply_selected_style(line);
    assert_eq!(styled.spans[0].style.add_modifier, BOLD | ITALIC);
    assert_eq!(styled.style.add_modifier, BOLD | ITALIC);
}

#[test]
fn log_view_lines_get_markers() {
    let mut app = App::blank();
    app.unit_logs = vec!["one foo".to_string(), "two".to_string(), "three".to_string()];
    app.visual_line_select = true;
    app.selected_log_line_marks = vec![2, 0];
    assert_eq!(app.log_line_marker(0).text, "┏ ");
    assert_eq!(app.log_line_marker(1).text, "┃ ");
    assert_eq!(app.log_line_marker(2).text, "┗ ");
    app.log_search_query = "foo".to_string();
    let line = app.log_view_line(0, "one foo");
    let texts: Vec<&str> = line.spans.iter().map(|s| s.text.as_str()).collect();
    assert_eq!(texts, vec!["┏ ", "one ", "foo"]);
    assert_eq!(line.spans[1].style.add_modifier, BOLD | ITALIC);
    app.visual_line_select = false;
    app.visual_select = true;
    app.selected_log_lines = vec![1];
    assert_eq!(app.log_line_marker(1).text, "☑ ");
    assert_eq!(app.log_line_marker(2).text, "☐ ");
    app.visual_select = false;
    assert_eq!(app.log_line_marker(2).text, "");
}

#[test]
fn named_styles() {
    use_named_styles();
}

fn use_named_styles() {
    assert_eq!(lazysysd::styles::modal_border_style().fg, Some(Color::Cyan));
    assert_eq!(lazysysd::styles::search_query_style(), lazysysd::styles::accent_style());
    assert_eq!(lazysysd::styles::section_header_style(), lazysysd::styles::keybind_style());
    assert_eq!(lazysysd::styles::selection_style().bg, Some(Color::DarkGray));
}

#[test]
fn layout_splits_columns_and_centres_dialogs() {
    use_layout();
}

fn use_layout() {
    assert_eq!(unit_row_column_widths(100), [30, 15, 18, 18, 19]);
    let segments = header_segment_areas((0, 0, 200, 3));
    assert_eq!(segments.len(), 5);
    assert_eq!(segments[0], (0, 0, 60, 3));
    assert_eq!(segments[1].0, 60);
    assert_eq!(help_column_areas((0, 0, 100, 6)).iter().map(|a| a.2).sum::<u16>(), 100);
    assert_eq!(centered_rect(50, 50, (0, 0, 100, 40)), (25, 10, 50, 20));
}

#[test]
fn log_lines_are_read_from_their_escape_sequences() {
    let app = App::blank();
    let line = app.log_view_line(0, "\x1b[31mred\x1b[0m plain");
    let texts: Vec<&str> = line.spans.iter().map(|s| s.text.as_str()).collect();
    assert_eq!(texts, vec!["", "red", " plain"]);
    assert_eq!(line.spans[1].style.fg, Some(Color::Red));
    let marked = app.mark_log_line(0, "x", line_of(vec![StyledSpan::raw("x")]));
    assert_eq!(marked.spans.len(), 2);
}

#[test]
fn colour_names_read_back_as_colours() {
    assert_eq!(color_from_name("Red"), Some(Color::Red));
    assert_eq!(color_from_name("LightCyan"), Some(Color::LightCyan));
    assert_eq!(color_from_name("#FF8000"), Some(Color::Rgb(255, 128, 0)));
    assert_eq!(color_from_name("#ff8000"), Some(Color::Rgb(255, 128, 0)));
    assert_eq!(color_from_name("42"), Some(Color::Indexed(42)));
    assert_eq!(color_from_name("256"), None);
    assert_eq!(color_from_name("#12345"), None);
    assert_eq!(color_from_name("Purple"), None);
}

#[test]
fn unparsed_log_lines_fall_back_to_their_text() {
    let line = line_from_ansi("a\nb", None);
    let texts: Vec<&str> = line.spans.iter().map(|s| s.text.as_str()).collect();
    assert_eq!(texts, vec!["a", "b"]);
    assert_eq!(line.spans[0].style, SpanStyle::new());
}
