//! The text around the main view: the header segments, the help columns,
//! the filter menu entries, the titles and the modal dialogs.
use vstd::prelude::*;
use crate::bindings::Area;
use crate::commands::{decimal, decimal_string};
use crate::display::{
    active_with_sub, label_active_color, label_enablement_color, label_load_color, raw_line, raw_spans,
    active_state_color_of, enablement_state_color_of, load_state_color_of, trim_ws, leading_ws,
};
use crate::filters::menu_filter;
use crate::models::{edit_mode_action_label, Color, EditReview};
use crate::state::{App, FilterMenu, FilterMenuOption, ViewMode};
use crate::styles::{
    keybind_style, line_of, plain_style, push_span, span_views, with_bg, with_fg, with_modifier, SpanStyle,
    StyledLine, StyledSpan, BOLD,
};
use crate::text::{chars_of, is_white_space, push_char, push_str, str_eq, white_space};

verus! {

/// A help entry: a key and what it does.
pub type Shortcut = (&'static str, &'static str);

/// The views of help entries.
pub open spec fn shortcut_views(v: Seq<Shortcut>) -> Seq<(Seq<char>, Seq<char>)> {
    v.map_values(|s: Shortcut| (s.0@, s.1@))
}

fn push_shortcut(v: &mut Vec<Shortcut>, key: &'static str, description: &'static str)
    ensures
        shortcut_views(final(v)@) == shortcut_views(old(v)@).push((key@, description@)),
{
    v.push((key, description));
    assert(shortcut_views(v@) =~= shortcut_views(old(v)@).push((key@, description@)));
}

/// The movement keys.
pub open spec fn nav_help() -> Seq<(Seq<char>, Seq<char>)> {
    seq![
        ("j/k"@, "Move up/down"@),
        ("Ctrl+u/d"@, "Half page up/down"@),
        ("Ctrl+b/f"@, "Full page up/down"@),
        ("gg/G"@, "Top/Bottom"@),
    ]
}

/// The keys while a search query is typed.
pub open spec fn editing_help() -> (Seq<(Seq<char>, Seq<char>)>, Seq<(Seq<char>, Seq<char>)>, Seq<(Seq<char>, Seq<char>)>) {
    (
        seq![("Left/Right"@, "Move cursor"@)],
        seq![("Backspace"@, "Delete"@), ("Enter"@, "Keep"@)],
        seq![("Esc"@, "Clear"@)],
    )
}

/// The three help columns (movement, actions, leaving the view) for the
/// state of the interface.
pub open spec fn help_spec(app: App) -> (Seq<(Seq<char>, Seq<char>)>, Seq<(Seq<char>, Seq<char>)>, Seq<(Seq<char>, Seq<char>)>) {
    match app.view_mode {
        ViewMode::UnitList => if app.open_filter_menu is Some {
            (Seq::empty(), seq![("Shown keys"@, "Pick one"@)], seq![("Esc/q"@, "Close"@)])
        } else if app.is_searching {
            editing_help()
        } else {
            (
                nav_help(),
                seq![("/"@, "Search"@), ("y/p/a/n/o"@, "Toggle filters"@), ("Ctrl+r"@, "Reset filters"@)],
                seq![("Y"@, "Copy unit file path"@), ("q"@, "Quit"@)],
            )
        },
        ViewMode::LogView => if app.log_search_mode {
            editing_help()
        } else if app.visual_line_select || app.visual_select {
            (nav_help(), seq![("Space"@, "Mark"@), ("y/Enter"@, "Yank"@)], seq![("Esc"@, "Cancel"@)])
        } else {
            (
                nav_help(),
                seq![("Ctrl+r"@, "Refresh"@), ("/"@, "Search"@)] + if app.log_search_query@.len() > 0 {
                    seq![("n/N"@, "Next/prev"@)]
                } else {
                    Seq::empty()
                },
                seq![
                    ("v"@, "Select lines"@),
                    ("V"@, "Select line blocks"@),
                    ("e"@, "Open in editor"@),
                    ("Esc/q"@, "Back"@),
                ],
            )
        },
        ViewMode::FileView => if app.file_search_mode {
            editing_help()
        } else if app.pending_edit_review is Some {
            (Seq::empty(), Seq::empty(), seq![("Enter"@, "Apply"@), ("Esc/q"@, "Discard"@)])
        } else {
            (
                nav_help(),
                seq![("/"@, "Search"@)] + if app.file_search_query@.len() > 0 {
                    seq![("n/N"@, "Next/prev"@)]
                } else {
                    Seq::empty()
                },
                seq![("e"@, "Override edit"@), ("E"@, "Replace edit"@), ("Esc/q"@, "Back"@)],
            )
        },
    }
}

fn nav_shortcuts() -> (r: Vec<Shortcut>)
    ensures
        shortcut_views(r@) == nav_help(),
{
    let mut v: Vec<Shortcut> = Vec::new();
    push_shortcut(&mut v, "j/k", "Move up/down");
    push_shortcut(&mut v, "Ctrl+u/d", "Half page up/down");
    push_shortcut(&mut v, "Ctrl+b/f", "Full page up/down");
    push_shortcut(&mut v, "gg/G", "Top/Bottom");
    assert(shortcut_views(v@) =~= nav_help());
    v
}

fn editing_shortcuts() -> (r: (Vec<Shortcut>, Vec<Shortcut>, Vec<Shortcut>))
    ensures
        (shortcut_views(r.0@), shortcut_views(r.1@), shortcut_views(r.2@)) == editing_help(),
{
    let mut a: Vec<Shortcut> = Vec::new();
    push_shortcut(&mut a, "Left/Right", "Move cursor");
    let mut b: Vec<Shortcut> = Vec::new();
    push_shortcut(&mut b, "Backspace", "Delete");
    push_shortcut(&mut b, "Enter", "Keep");
    let mut c: Vec<Shortcut> = Vec::new();
    push_shortcut(&mut c, "Esc", "Clear");
    assert(shortcut_views(a@) =~= editing_help().0);
    assert(shortcut_views(b@) =~= editing_help().1);
    assert(shortcut_views(c@) =~= editing_help().2);
    (a, b, c)
}

impl App {
    /// The help columns for the current state of the interface.
    pub fn help_columns(&self) -> (r: (Vec<Shortcut>, Vec<Shortcut>, Vec<Shortcut>))
        ensures
            (shortcut_views(r.0@), shortcut_views(r.1@), shortcut_views(r.2@)) == help_spec(*self),
    {
        let mut a: Vec<Shortcut> = Vec::new();
        let mut b: Vec<Shortcut> = Vec::new();
        let mut c: Vec<Shortcut> = Vec::new();
        match self.view_mode {
            ViewMode::UnitList => {
                if self.open_filter_menu.is_some() {
                    push_shortcut(&mut b, "Shown keys", "Pick one");
                    push_shortcut(&mut c, "Esc/q", "Close");
                } else if self.is_searching {
                    return editing_shortcuts();
                } else {
                    a = nav_shortcuts();
                    push_shortcut(&mut b, "/", "Search");
                    push_shortcut(&mut b, "y/p/a/n/o", "Toggle filters");
                    push_shortcut(&mut b, "Ctrl+r", "Reset filters");
                    push_shortcut(&mut c, "Y", "Copy unit file path");
                    push_shortcut(&mut c, "q", "Quit");
                }
            },
            ViewMode::LogView => {
                if self.log_search_mode {
                    return editing_shortcuts();
                } else if self.visual_line_select || self.visual_select {
                    a = nav_shortcuts();
                    push_shortcut(&mut b, "Space", "Mark");
                    push_shortcut(&mut b, "y/Enter", "Yank");
                    push_shortcut(&mut c, "Esc", "Cancel");
                } else {
                    a = nav_shortcuts();
                    push_shortcut(&mut b, "Ctrl+r", "Refresh");
                    push_shortcut(&mut b, "/", "Search");
                    if !self.log_search_query.as_str().is_empty() {
                        push_shortcut(&mut b, "n/N", "Next/prev");
                    }
                    push_shortcut(&mut c, "v", "Select lines");
                    push_shortcut(&mut c, "V", "Select line blocks");
                    push_shortcut(&mut c, "e", "Open in editor");
                    push_shortcut(&mut c, "Esc/q", "Back");
                }
            },
            ViewMode::FileView => {
                if self.file_search_mode {
                    return editing_shortcuts();
                } else if self.pending_edit_review.is_some() {
                    push_shortcut(&mut c, "Enter", "Apply");
                    push_shortcut(&mut c, "Esc/q", "Discard");
                } else {
                    a = nav_shortcuts();
                    push_shortcut(&mut b, "/", "Search");
                    if !self.file_search_query.as_str().is_empty() {
                        push_shortcut(&mut b, "n/N", "Next/prev");
                    }
                    push_shortcut(&mut c, "e", "Override edit");
                    push_shortcut(&mut c, "E", "Replace edit");
                    push_shortcut(&mut c, "Esc/q", "Back");
                }
            },
        }
        let ghost h = help_spec(*self);
        assert(shortcut_views(a@) =~= h.0);
        assert(shortcut_views(b@) =~= h.1);
        assert(shortcut_views(c@) =~= h.2);
        (a, b, c)
    }
}

/// A help entry as drawn: the key in the key style, then `": "` and what it does.
pub fn shortcut(key: &str, description: &str) -> (r: StyledLine)
    ensures
        r@ == (seq![(key@, with_modifier(with_fg(plain_style(), Color::Cyan), BOLD)), (": "@ + description@, plain_style())], plain_style()),
{
    let mut spans: Vec<StyledSpan> = Vec::new();
    push_span(&mut spans, key, keybind_style());
    let mut text = String::from_str(": ");
    push_str(&mut text, description);
    push_span(&mut spans, text.as_str(), SpanStyle::new());
    assert(span_views(spans@) =~= seq![(key@, with_modifier(with_fg(plain_style(), Color::Cyan), BOLD)), (": "@ + description@, plain_style())]);
    line_of(spans)
}

/// The character under the search cursor: black on yellow, bold.
pub open spec fn cursor_style() -> SpanStyle {
    with_modifier(with_fg(with_bg(plain_style(), Color::Yellow), Color::Black), BOLD)
}

/// A search query as the header shows it: one span per character, the one at
/// the cursor in the cursor style, and a cursor-styled space after the query
/// when the cursor is at its end.
pub open spec fn search_text_spans(query: Seq<char>, cursor: usize) -> Seq<(Seq<char>, SpanStyle)> {
    Seq::new(query.len(), |i: int| (seq![query[i]], if i == cursor { cursor_style() } else { plain_style() }))
        + if cursor == query.len() {
        seq![(" "@, cursor_style())]
    } else {
        Seq::empty()
    }
}

/// Draws a search query with its cursor.
pub fn render_search_text(query: &str, cursor: usize) -> (r: StyledLine)
    ensures
        r@ == (search_text_spans(query@, cursor), plain_style()),
{
    let chars = chars_of(query);
    let cursor_look = SpanStyle::new().bg(Color::Yellow).fg(Color::Black).add_modifier(BOLD);
    let mut spans: Vec<StyledSpan> = Vec::new();
    let mut i: usize = 0;
    while i < chars.len()
        invariant
            i <= chars.len(),
            chars@ == query@,
            cursor_look == cursor_style(),
            span_views(spans@) == Seq::new(i as nat, |k: int| (seq![query@[k]], if k == cursor { cursor_style() } else { plain_style() })),
        decreases chars.len() - i,
    {
        let mut one = String::new();
        push_char(&mut one, chars[i]);
        assert(one@ =~= seq![query@[i as int]]);
        if i == cursor {
            push_span(&mut spans, one.as_str(), cursor_look);
        } else {
            push_span(&mut spans, one.as_str(), SpanStyle::new());
        }
        assert(span_views(spans@) =~= Seq::new((i + 1) as nat, |k: int| (seq![query@[k]], if k == cursor { cursor_style() } else { plain_style() })));
        i += 1;
    }
    let ghost body = span_views(spans@);
    if cursor == chars.len() {
        push_span(&mut spans, " ", cursor_look);
    }
    assert(span_views(spans@) =~= search_text_spans(query@, cursor));
    line_of(spans)
}

/// The border of the search segment: yellow while typing, cyan when a
/// query is kept, plain otherwise.
pub open spec fn search_border(searching: bool, has_query: bool) -> SpanStyle {
    if searching {
        with_fg(plain_style(), Color::Yellow)
    } else if has_query {
        with_fg(plain_style(), Color::Cyan)
    } else {
        plain_style()
    }
}

/// The border style of the search segment.
pub fn search_segment_style(searching: bool, has_query: bool) -> (r: SpanStyle)
    ensures
        r == search_border(searching, has_query),
{
    if searching {
        SpanStyle::new().fg(Color::Yellow)
    } else if has_query {
        SpanStyle::new().fg(Color::Cyan)
    } else {
        SpanStyle::new()
    }
}

/// What the search segment says before anything is typed in a view.
pub open spec fn placeholder(mode: ViewMode) -> Seq<char> {
    match mode {
        ViewMode::UnitList => "Type / to search units..."@,
        ViewMode::LogView => "Type / to search logs..."@,
        ViewMode::FileView => "Type / to search unit file..."@,
    }
}

/// The search of the current view: its query, cursor and whether it is being typed.
pub open spec fn view_search(app: App) -> (Seq<char>, usize, bool) {
    match app.view_mode {
        ViewMode::UnitList => (app.search_query@, app.search_cursor, app.is_searching),
        ViewMode::LogView => (app.log_search_query@, app.log_search_cursor, app.log_search_mode),
        ViewMode::FileView => (app.file_search_query@, app.file_search_cursor, app.file_search_mode),
    }
}

/// The search segment of the header: the placeholder when nothing is typed
/// or being typed, else the query with its cursor; and the border style.
pub open spec fn search_segment_spec(app: App) -> ((Seq<(Seq<char>, SpanStyle)>, SpanStyle), SpanStyle) {
    let (query, cursor, active) = view_search(app);
    if query.len() == 0 && !active {
        ((raw_spans(placeholder(app.view_mode)), plain_style()), search_border(false, false))
    } else {
        ((search_text_spans(query, cursor), plain_style()), search_border(active, query.len() > 0))
    }
}

impl App {
    /// The search segment of the header.
    pub fn search_segment_content(&self) -> (r: (StyledLine, SpanStyle))
        ensures
            (r.0@, r.1) == search_segment_spec(*self),
    {
        let (query, cursor, active, hint) = match self.view_mode {
            ViewMode::UnitList => (self.search_query.as_str(), self.search_cursor, self.is_searching, "Type / to search units..."),
            ViewMode::LogView => (self.log_search_query.as_str(), self.log_search_cursor, self.log_search_mode, "Type / to search logs..."),
            ViewMode::FileView => (self.file_search_query.as_str(), self.file_search_cursor, self.file_search_mode, "Type / to search unit file..."),
        };
        assert(hint@ == placeholder(self.view_mode));
        if query.is_empty() && !active {
            (raw_line(hint), search_segment_style(false, false))
        } else {
            (render_search_text(query, cursor), search_segment_style(active, !query.is_empty()))
        }
    }
}

/// A status segment of the header: the value shown, its style, the border style.
pub struct SegmentSpec {
    pub value: String,
    pub value_style: SpanStyle,
    pub border_style: SpanStyle,
}

/// The status segment of `menu`: in the unit list, the filter value (`all`
/// when unset), bright when set, the border yellow while its menu is open or
/// cyan while it filters; in the other views, the selected unit's value in
/// its colour (the scope in grey; `Unknown` when no unit is selected), with
/// a grey border.
pub open spec fn segment_spec(app: App, menu: FilterMenu) -> (Seq<char>, SpanStyle, SpanStyle) {
    match app.view_mode {
        ViewMode::UnitList => {
            let value = match menu_filter(app, menu) {
                Some(v) => v@,
                None => "all"@,
            };
            let value_style = if value == "all"@ {
                with_fg(plain_style(), Color::DarkGray)
            } else {
                with_modifier(with_fg(plain_style(), Color::White), BOLD)
            };
            let border_style = if app.open_filter_menu == Some(menu) {
                with_fg(plain_style(), Color::Yellow)
            } else if value != "all"@ {
                with_fg(plain_style(), Color::Cyan)
            } else {
                plain_style()
            };
            (value, value_style, border_style)
        },
        _ => match app.selected_unit() {
            None => ("Unknown"@, with_fg(plain_style(), Color::DarkGray), with_fg(plain_style(), Color::DarkGray)),
            Some(unit) => {
                let grey = with_fg(plain_style(), Color::DarkGray);
                match menu {
                    FilterMenu::Scope => (unit.scope@, grey, grey),
                    FilterMenu::Active => (active_with_sub(unit), with_fg(plain_style(), label_active_color(unit.active_state@)), grey),
                    FilterMenu::Enablement => (unit.enablement_state@, with_fg(plain_style(), label_enablement_color(unit.enablement_state@)), grey),
                    FilterMenu::Load => (unit.load_state@, with_fg(plain_style(), label_load_color(unit.load_state@)), grey),
                }
            },
        },
    }
}

impl App {
    /// The status segment of `menu` in the header.
    pub fn status_segment_spec(&self, menu: FilterMenu) -> (r: SegmentSpec)
        requires
            self.wf(),
        ensures
            (r.value@, r.value_style, r.border_style) == segment_spec(*self, menu),
    {
        match self.view_mode {
            ViewMode::UnitList => {
                let value = self.filter_summary(menu);
                let is_all = str_eq(value, "all");
                let value_style = if is_all {
                    SpanStyle::new().fg(Color::DarkGray)
                } else {
                    SpanStyle::new().fg(Color::White).add_modifier(BOLD)
                };
                let open = match self.open_filter_menu {
                    Some(m) => m == menu,
                    None => false,
                };
                let border_style = if open {
                    SpanStyle::new().fg(Color::Yellow)
                } else if !is_all {
                    SpanStyle::new().fg(Color::Cyan)
                } else {
                    SpanStyle::new()
                };
                SegmentSpec { value: value.to_string(), value_style, border_style }
            },
            _ => {
                let grey = SpanStyle::new().fg(Color::DarkGray);
                match self.get_selected_unit() {
                    None => SegmentSpec { value: "Unknown".to_string(), value_style: grey, border_style: grey },
                    Some(unit) => match menu {
                        FilterMenu::Scope => SegmentSpec { value: unit.scope.clone(), value_style: grey, border_style: grey },
                        FilterMenu::Active => {
                            let mut value = unit.active_state.clone();
                            push_str(&mut value, " (");
                            push_str(&mut value, unit.sub_state.as_str());
                            push_str(&mut value, ")");
                            SegmentSpec {
                                value,
                                value_style: SpanStyle::new().fg(active_state_color_of(unit.active_state.as_str())),
                                border_style: grey,
                            }
                        },
                        FilterMenu::Enablement => SegmentSpec {
                            value: unit.enablement_state.clone(),
                            value_style: SpanStyle::new().fg(enablement_state_color_of(unit.enablement_state.as_str())),
                            border_style: grey,
                        },
                        FilterMenu::Load => SegmentSpec {
                            value: unit.load_state.clone(),
                            value_style: SpanStyle::new().fg(load_state_color_of(unit.load_state.as_str())),
                            border_style: grey,
                        },
                    },
                }
            },
        }
    }
}

/// A filter menu entry as drawn: a filled or empty circle and its key in
/// brackets, then its label and unit count; green and bold when selected.
pub open spec fn menu_item_spans(hotkey: char, label: Seq<char>, selected: bool, count: nat) -> Seq<(Seq<char>, SpanStyle)> {
    let style = if selected {
        with_modifier(with_fg(plain_style(), Color::Green), BOLD)
    } else {
        plain_style()
    };
    let marker = if selected { "◉"@ } else { "○"@ };
    seq![
        (marker + " ["@ + seq![hotkey] + "] "@, style),
        (label + " ("@ + decimal(count) + ")"@, style),
    ]
}

/// Draws one entry of a filter menu.
pub fn filter_menu_item(option: &FilterMenuOption) -> (r: StyledLine)
    ensures
        r@ == (menu_item_spans(option.hotkey, option.label@, option.selected, option.count as nat), plain_style()),
{
    let style = if option.selected {
        SpanStyle::new().fg(Color::Green).add_modifier(BOLD)
    } else {
        SpanStyle::new()
    };
    let mut head = if option.selected { String::from_str("◉") } else { String::from_str("○") };
    push_str(&mut head, " [");
    push_char(&mut head, option.hotkey);
    push_str(&mut head, "] ");
    let mut tail = option.label.clone();
    push_str(&mut tail, " (");
    let n = decimal_string(option.count as u128);
    push_str(&mut tail, n.as_str());
    push_str(&mut tail, ")");
    let ghost marker = if option.selected { "◉"@ } else { "○"@ };
    assert(head@ =~= marker + " ["@ + seq![option.hotkey] + "] "@);
    assert(tail@ =~= option.label@ + " ("@ + decimal(option.count as nat) + ")"@);
    let mut spans: Vec<StyledSpan> = Vec::new();
    push_span(&mut spans, head.as_str(), style);
    push_span(&mut spans, tail.as_str(), style);
    assert(span_views(spans@) =~= menu_item_spans(option.hotkey, option.label@, option.selected, option.count as nat));
    line_of(spans)
}

/// The title of the unit list: how many units are shown of how many.
pub open spec fn units_title(shown: nat, total: nat) -> Seq<char> {
    " Units ("@ + decimal(shown) + "/"@ + decimal(total) + ") "@
}

/// The title of the unit list.
pub fn unit_list_title(shown: usize, total: usize) -> (r: String)
    ensures
        r@ == units_title(shown as nat, total as nat),
{
    let mut r = String::from_str(" Units (");
    let a = decimal_string(shown as u128);
    push_str(&mut r, a.as_str());
    push_str(&mut r, "/");
    let b = decimal_string(total as u128);
    push_str(&mut r, b.as_str());
    push_str(&mut r, ") ");
    r
}

/// The title of the unit file view.
pub fn file_view_title(path: &str) -> (r: String)
    ensures
        r@ == " Unit File: "@ + path@ + " "@,
{
    let mut r = String::from_str(" Unit File: ");
    push_str(&mut r, path);
    push_str(&mut r, " ");
    r
}

/// The title and the lines of the dialog that asks to apply a draft.
pub open spec fn review_text(review: EditReview) -> (Seq<char>, Seq<Seq<char>>) {
    let label = edit_mode_action_label(review.mode);
    (
        " Apply "@ + label + " "@,
        seq![
            "Unit: "@ + review.unit_name@,
            "Mode: "@ + label + " via systemctl edit"@,
            "Draft returned from your editor and is ready to apply."@,
            "Applying will request authorization and reload systemd automatically."@,
        ],
    )
}

/// The title and the lines of the dialog that asks to apply a draft.
pub fn edit_review_text(review: &EditReview) -> (r: (String, Vec<String>))
    ensures
        (r.0@, r.1@.map_values(|s: String| s@)) == review_text(*review),
{
    let label = review.mode.action_label();
    let mut title = String::from_str(" Apply ");
    push_str(&mut title, label);
    push_str(&mut title, " ");
    let mut unit = String::from_str("Unit: ");
    push_str(&mut unit, review.unit_name.as_str());
    let mut mode = String::from_str("Mode: ");
    push_str(&mut mode, label);
    push_str(&mut mode, " via systemctl edit");
    let mut body: Vec<String> = Vec::new();
    body.push(unit);
    body.push(mode);
    body.push("Draft returned from your editor and is ready to apply.".to_string());
    body.push("Applying will request authorization and reload systemd automatically.".to_string());
    assert(body@.map_values(|s: String| s@) =~= review_text(*review).1);
    (title, body)
}

/// Whether the authentication dialog still waits for the agent: its
/// terminal has printed nothing but white space.
pub fn auth_prompt_waiting(output: &str) -> (r: bool)
    ensures
        r == (trim_ws(output@).len() == 0),
{
    let v = chars_of(output);
    let mut i: usize = 0;
    while i < v.len()
        invariant
            i <= v.len(),
            v@ == output@,
            forall|k: int| 0 <= k < i ==> is_white_space(#[trigger] v@[k]),
        decreases v.len() - i,
    {
        if !white_space(v[i]) {
            proof { crate::display::lemma_trim_nonblank(v@, i as int); }
            return false;
        }
        i += 1;
    }
    proof { crate::display::lemma_trim_blank(v@); }
    true
}

/// The room an entry's text takes: its label's UTF-8 bytes plus nine for
/// the marker, the key and the count.
pub open spec fn entry_room(o: FilterMenuOption) -> nat {
    vstd::utf8::encode_utf8(o.label@).len() + 9
}

/// The widest entry's room, or 18 for a menu with no entries.
pub open spec fn widest_entry(options: Seq<FilterMenuOption>) -> nat
    decreases options.len(),
{
    if options.len() == 0 {
        18
    } else if options.len() == 1 {
        entry_room(options[0])
    } else {
        let rest = widest_entry(options.drop_last());
        let last = entry_room(options.last());
        if rest >= last { rest } else { last }
    }
}

/// Where an open filter menu is drawn: under its header segment (but not
/// above the list), at least as wide as the segment and its widest entry
/// plus borders, one row per entry plus borders, all kept on the screen.
pub open spec fn menu_area(anchor: Area, list_y: u16, screen_w: u16, screen_h: u16, options: Seq<FilterMenuOption>) -> Area {
    let content = (widest_entry(options) % 65536) as int;
    let room = if screen_w > anchor.0 { screen_w - anchor.0 } else { 0 };
    let max_width = if room > 1 { room } else { 1 };
    let wide = if anchor.2 >= content + 2 { anchor.2 as int } else { content + 2 };
    let width = if wide <= max_width { wide } else { max_width as int };
    let below = anchor.1 + (if anchor.3 >= 1 { anchor.3 - 1 } else { 0 });
    let top = if below > u16::MAX { u16::MAX as int } else { below };
    let y = if top >= list_y { top } else { list_y as int };
    let left = if screen_h > y { screen_h - y } else { 0 };
    let max_height = if left > 3 { left } else { 3 };
    let rows = (options.len() % 65536) as int + 2;
    let height = if rows <= max_height { rows } else { max_height };
    (anchor.0, y as u16, width as u16, height as u16)
}

/// Whether the menu's size fits the integer widths its layout uses: the
/// widest entry's room in a `usize`, and the width and row count, taken as
/// `u16`, with room for the borders.
pub open spec fn menu_area_fits(options: Seq<FilterMenuOption>) -> bool {
    &&& widest_entry(options) <= usize::MAX
    &&& widest_entry(options) % 65536 + 2 <= u16::MAX
    &&& options.len() % 65536 + 2 <= u16::MAX
}

/// Where an open filter menu with these entries is drawn; `None` when its
/// size does not fit the integer widths its layout uses.
pub fn filter_menu_area(anchor: Area, list_y: u16, screen_w: u16, screen_h: u16, options: &Vec<FilterMenuOption>) -> (r: Option<Area>)
    ensures
        r == if menu_area_fits(options@) {
            Some(menu_area(anchor, list_y, screen_w, screen_h, options@))
        } else {
            None
        },
{
    let mut widest: u128 = 18;
    let mut i: usize = 0;
    while i < options.len()
        invariant
            i <= options.len(),
            widest == if i == 0 { 18 } else { widest_entry(options@.take(i as int)) },
            widest <= usize::MAX + 9,
        decreases options.len() - i,
    {
        let bytes = options[i].label.as_str().as_bytes();
        let room = bytes.len();
        proof {
            assert(bytes@.len() == room);
            assert(options@.take(i + 1).drop_last() == options@.take(i as int));
            assert(options@.take(i + 1).last() == options@[i as int]);
        }
        let w: u128 = room as u128 + 9;
        widest = if i == 0 { w } else if widest >= w { widest } else { w };
        i += 1;
    }
    assert(options@.take(options.len() as int) == options@);
    if widest > usize::MAX as u128 || widest % 65536 + 2 > 65535 || (options.len() % 65536) + 2 > 65535 {
        return None;
    }
    let content: u16 = (widest % 65536) as u16;
    let room: u16 = if screen_w > anchor.0 { screen_w - anchor.0 } else { 0 };
    let max_width: u16 = if room > 1 { room } else { 1 };
    let wide: u16 = if anchor.2 >= content + 2 { anchor.2 } else { content + 2 };
    let width: u16 = if wide <= max_width { wide } else { max_width };
    let below: u16 = anchor.1.saturating_add(if anchor.3 >= 1 { anchor.3 - 1 } else { 0 });
    let y: u16 = if below >= list_y { below } else { list_y };
    let left: u16 = if screen_h > y { screen_h - y } else { 0 };
    let max_height: u16 = if left > 3 { left } else { 3 };
    let rows: u16 = ((options.len() % 65536) as u16) + 2;
    let height: u16 = if rows <= max_height { rows } else { max_height };
    Some((anchor.0, y, width, height))
}

} // verus!
