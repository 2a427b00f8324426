//! Key presses and background results, turned into state changes and into the
//! outside work the terminal front end performs.
use vstd::prelude::*;
use crate::filters::{is_menu_options, menu_filter, refilters, refilters_keeping, selected_key};
use crate::keys::{KeyCode, KeyEvent, command_action, command_for_key, unit_command_for_key};
use crate::models::{AppInternalEvent, EditReview, PendingAction, PrivilegedAction, UnitEditMode, UnitInfo};
use crate::search::{cycled_hit, edited_cursor, edited_query, search_hits};
use crate::selection::{discards_review, is_edit_request, moves_log_selection, moves_selection, selects_row};
use crate::state::{App, FilterMenu, FilterMenuOption, NavAction, ViewMode};
use crate::text::{ascii_lower, char_count, join, join_seqs, lines, push_str, text_lines, to_ascii_lowercase, views};

verus! {

/// Work that the front end performs outside the state.
pub enum Effect {
    /// Nothing.
    Idle,
    /// Write this key into the authentication prompt's terminal.
    ForwardToAuth(KeyEvent),
    /// Abandon the running authentication prompt.
    CancelAuth,
    /// Open an authentication prompt, then run the action.
    Authorize(PrivilegedAction),
    /// Load the journal of a unit.
    FetchLogs { unit_name: String, scope: String },
    /// Load the file of a unit.
    FetchUnitFile(UnitInfo),
    /// Reload the unit list.
    RefreshUnits,
    /// Put text on the clipboard.
    CopyToClipboard(String),
    /// Stop the authentication prompt's process.
    StopAuthPane,
}

/// `a - b` kept within the range of `i32`.
pub open spec fn sat_sub_i32(a: int, b: int) -> int {
    if a - b < i32::MIN {
        i32::MIN as int
    } else if a - b > i32::MAX {
        i32::MAX as int
    } else {
        a - b
    }
}

/// `a - b`, or 0 below 0.
pub open spec fn sat_sub_u16(a: u16, b: int) -> u16 {
    if a - b < 0 {
        0
    } else {
        (a - b) as u16
    }
}

/// `a + b`, or the largest `u16` above it.
pub open spec fn sat_add_u16(a: u16, b: int) -> u16 {
    if a + b > u16::MAX {
        u16::MAX
    } else {
        (a + b) as u16
    }
}

/// `x` kept within the range of `u16`.
pub open spec fn clamp_u16(x: int) -> u16 {
    if x < 0 {
        0
    } else if x > u16::MAX {
        u16::MAX
    } else {
        x as u16
    }
}

/// `x` kept within the range of `u16`.
pub fn clamp_to_u16(x: i32) -> (r: u16)
    ensures
        r == clamp_u16(x as int),
{
    if x < 0 {
        0
    } else if x > 65535 {
        65535
    } else {
        x as u16
    }
}

/// The line count of the shown file as the front end counts it (an `i32`).
pub open spec fn file_line_total(app: App) -> int {
    (text_lines(app.unit_file_content@).len() as i32) as int
}

/// The scroll position of the file view after a movement: moved, then kept
/// at or above the last line.
pub open spec fn file_scroll_after(app: App, action: NavAction) -> u16 {
    let height = app.last_area_height as int;
    let half = height / 2;
    let total = file_line_total(app);
    let s = app.file_scroll;
    let moved: u16 = match action {
        NavAction::Up => sat_sub_u16(s, 1),
        NavAction::Down => sat_add_u16(s, 1),
        NavAction::HalfPageUp => sat_sub_u16(s, half),
        NavAction::HalfPageDown => sat_add_u16(s, half),
        NavAction::PageUp => sat_sub_u16(s, height),
        NavAction::PageDown => sat_add_u16(s, height),
        NavAction::Top => 0,
        NavAction::Bottom => clamp_u16(sat_sub_i32(total, height)),
    };
    let cap = clamp_u16(sat_sub_i32(total, 1));
    if moved < cap {
        moved
    } else {
        cap
    }
}

/// How far a movement moves a highlight.
pub open spec fn nav_delta(app: App, action: NavAction) -> int {
    let height = app.last_area_height as int;
    let half = height / 2;
    match action {
        NavAction::Up => -1,
        NavAction::Down => 1,
        NavAction::HalfPageUp => -half,
        NavAction::HalfPageDown => half,
        NavAction::PageUp => -height,
        NavAction::PageDown => height,
        _ => 0,
    }
}

/// `new` is `old` after a movement in the current view.
pub open spec fn navigates(old: App, action: NavAction, new: App) -> bool {
    match old.view_mode {
        ViewMode::UnitList => match action {
            NavAction::Top => selects_row(old, Some(0usize), new),
            NavAction::Bottom => if old.filtered_units.len() == 0 {
                new == old
            } else {
                selects_row(old, Some((old.filtered_units.len() - 1) as usize), new)
            },
            _ => moves_selection(old, nav_delta(old, action), new),
        },
        ViewMode::LogView => match action {
            NavAction::Top => new == (App { log_selected: Some(0usize), ..old }),
            NavAction::Bottom => if old.unit_logs.len() == 0 {
                new == old
            } else {
                new == (App { log_selected: Some((old.unit_logs.len() - 1) as usize), ..old })
            },
            _ => moves_log_selection(old, nav_delta(old, action), new),
        },
        ViewMode::FileView => new == (App { file_scroll: file_scroll_after(old, action), ..old }),
    }
}

/// The movement a key stands for (`g` alone only arms `gg`).
pub open spec fn nav_action_for(key: KeyEvent) -> Option<NavAction> {
    match key.code {
        KeyCode::Char('j') | KeyCode::Down => Some(NavAction::Down),
        KeyCode::Char('k') | KeyCode::Up => Some(NavAction::Up),
        KeyCode::Char('G') => Some(NavAction::Bottom),
        KeyCode::Char('u') if key.modifiers.control => Some(NavAction::HalfPageUp),
        KeyCode::Char('d') if key.modifiers.control => Some(NavAction::HalfPageDown),
        KeyCode::Char('f') if key.modifiers.control => Some(NavAction::PageDown),
        KeyCode::Char('b') if key.modifiers.control => Some(NavAction::PageUp),
        _ => None,
    }
}

/// `new` is `old` after offering `key` to navigation, which took it when `taken`:
/// `gg` goes to the top, `g` waits for a second `g`, the movement keys move.
pub open spec fn navigates_on_key(old: App, key: KeyEvent, new: App, taken: bool) -> bool {
    let armed = old.pending_nav_prefix == Some('g');
    let mid = if armed {
        App { pending_nav_prefix: None, ..old }
    } else {
        old
    };
    if armed && key.code == KeyCode::Char('g') {
        taken && navigates(mid, NavAction::Top, new)
    } else if key.code == KeyCode::Char('g') {
        taken && new == (App { pending_nav_prefix: Some('g'), ..mid })
    } else {
        match nav_action_for(key) {
            Some(a) => taken && navigates(mid, a, new),
            None => !taken && new == mid,
        }
    }
}


/// Navigation takes `key`.
pub open spec fn nav_takes(old: App, key: KeyEvent) -> bool {
    key.code == KeyCode::Char('g') || nav_action_for(key) is Some
}

/// The state after navigation passed on a key: a pending `g` is dropped.
pub open spec fn after_nav_miss(old: App) -> App {
    if old.pending_nav_prefix == Some('g') {
        App { pending_nav_prefix: None, ..old }
    } else {
        old
    }
}

/// `new` is `old` with an authentication flow for `action` begun, unless one
/// runs already; `eff` asks the front end to run it.
pub open spec fn starts_auth(old: App, action: PrivilegedAction, new: App, eff: Effect) -> bool {
    if old.auth_prompt is Some {
        new == old && eff is Idle
    } else {
        &&& new.auth_prompt matches Some(p) && p@.len() == 0
        &&& new == (App { auth_prompt: new.auth_prompt, active_privileged_action: Some(action), ..old })
        &&& eff == Effect::Authorize(action)
    }
}

/// `new` is `old` with the authentication flow and its action dropped.
pub open spec fn cancels_auth(old: App, new: App, eff: Effect) -> bool {
    &&& new == (App { auth_prompt: None, active_privileged_action: None, ..old })
    &&& if old.auth_prompt is Some {
        eff is CancelAuth
    } else {
        eff is Idle
    }
}

/// A key during authentication: Ctrl+Q quits, Esc or Ctrl+C cancels, any
/// other key goes to the prompt.
pub open spec fn auth_on_key(old: App, key: KeyEvent, new: App, leave: bool, eff: Effect) -> bool {
    if key.modifiers.control && key.code == KeyCode::Char('q') {
        leave && new == old && eff is Idle
    } else if key.code == KeyCode::Esc || (key.modifiers.control && key.code == KeyCode::Char('c')) {
        !leave && cancels_auth(old, new, eff)
    } else {
        !leave && new == old && eff == Effect::ForwardToAuth(key)
    }
}

/// The action that applies a reviewed draft.
pub open spec fn apply_action(review: EditReview) -> PrivilegedAction {
    PrivilegedAction::ApplyEdit {
        unit_name: review.unit_name,
        scope: review.scope,
        mode: review.mode,
        content: review.edited_content,
    }
}

/// A key while a draft waits for review: Esc, `q` or `d` discard it; `a` or
/// Enter ask to apply it.
pub open spec fn review_on_key(old: App, key: KeyEvent, new: App, eff: Effect) -> bool {
    match key.code {
        KeyCode::Esc | KeyCode::Char('q') | KeyCode::Char('d') => discards_review(old, new) && eff is Idle,
        KeyCode::Char('a') | KeyCode::Enter => match old.pending_edit_review {
            Some(review) => starts_auth(old, apply_action(review), new, eff),
            None => new == old && eff is Idle,
        },
        _ => new == old && eff is Idle,
    }
}

/// The first option with hotkey `c`.
pub open spec fn option_with_key(r: Seq<FilterMenuOption>, c: char) -> Option<int>
    decreases r.len(),
{
    if r.len() == 0 {
        None
    } else {
        match option_with_key(r.drop_last(), c) {
            Some(k) => Some(k),
            None => if r.last().hotkey == c {
                Some(r.len() - 1)
            } else {
                None
            },
        }
    }
}

/// The state with `menu` set to `value` and closed.
pub open spec fn with_menu_value(app: App, menu: FilterMenu, value: Option<String>) -> App {
    match menu {
        FilterMenu::Active => App { active_state_filter: value, open_filter_menu: None, ..app },
        FilterMenu::Enablement => App { enablement_state_filter: value, open_filter_menu: None, ..app },
        FilterMenu::Load => App { load_state_filter: value, open_filter_menu: None, ..app },
        FilterMenu::Scope => App { scope_filter: value, open_filter_menu: None, ..app },
    }
}

/// A key in an open filter menu: Esc or `q` close it; the hotkey of an entry
/// sets the filter to it, closes the menu and refilters.
pub open spec fn filter_menu_on_key(old: App, key: KeyEvent, new: App) -> bool {
    match key.code {
        KeyCode::Esc | KeyCode::Char('q') => new == (App { open_filter_menu: None, ..old }),
        KeyCode::Char(c) => match old.open_filter_menu {
            Some(menu) => exists|r: Seq<FilterMenuOption>| #[trigger] is_menu_options(old, menu, r) && match option_with_key(r, ascii_lower(c)) {
                Some(k) => refilters(with_menu_value(old, menu, r[k].value), new),
                None => new == old,
            },
            None => new == old,
        },
        _ => new == old,
    }
}

/// The highlighted log line after jumping to the next or previous line
/// containing `query`.
pub open spec fn log_hit_after(app: App, query: Seq<char>, forward: bool) -> Option<usize> {
    let hits = search_hits(views(app.unit_logs@), query);
    if hits.len() == 0 {
        app.log_selected
    } else {
        Some(cycled_hit(hits, match app.log_selected {
            Some(i) => i,
            None => 0usize,
        }, forward))
    }
}

/// The current file hit and scroll position after jumping to the next or
/// previous line containing `query`.
pub open spec fn file_hit_after(app: App, query: Seq<char>, forward: bool) -> (Option<usize>, u16) {
    let hits = search_hits(text_lines(app.unit_file_content@), query);
    if hits.len() == 0 {
        (None, app.file_scroll)
    } else {
        let next = cycled_hit(hits, match app.file_search_match {
            Some(m) => m,
            None => app.file_scroll as usize,
        }, forward);
        (Some(next), next as u16)
    }
}

/// `new` is `old` with both visual selections and the log search dropped.
pub open spec fn leaves_log_modes(old: App, new: App) -> bool {
    &&& new.selected_log_lines@.len() == 0
    &&& new.selected_log_line_marks@.len() == 0
    &&& new.log_search_query@.len() == 0
    &&& new == (App {
        visual_select: false,
        visual_line_select: false,
        selected_log_lines: new.selected_log_lines,
        selected_log_line_marks: new.selected_log_line_marks,
        log_search_mode: false,
        log_search_query: new.log_search_query,
        log_search_cursor: 0,
        ..old
    })
}

/// A key in the log view: its search, its two select modes, navigation, and
/// the view's own keys.
pub open spec fn log_view_on_key(old: App, key: KeyEvent, new: App, leave: bool, eff: Effect) -> bool {
    if old.log_search_mode {
        &&& !leave
        &&& eff is Idle
        &&& match key.code {
            KeyCode::Esc => new.log_search_query@.len() == 0 && new == (App {
                log_search_mode: false,
                log_search_query: new.log_search_query,
                log_search_cursor: 0,
                ..old
            }),
            KeyCode::Enter => new == (App { log_search_mode: false, ..old }),
            KeyCode::Left | KeyCode::Right => new.log_search_query@ == edited_query(old.log_search_query@, old.log_search_cursor, key.code)
                && new == (App {
                log_search_query: new.log_search_query,
                log_search_cursor: edited_cursor(old.log_search_query@, old.log_search_cursor, key.code),
                ..old
            }),
            KeyCode::Backspace | KeyCode::Char(_) => {
                let q = edited_query(old.log_search_query@, old.log_search_cursor, key.code);
                &&& new.log_search_query@ == q
                &&& new == (App {
                    log_search_query: new.log_search_query,
                    log_search_cursor: edited_cursor(old.log_search_query@, old.log_search_cursor, key.code),
                    log_selected: log_hit_after(old, q, true),
                    ..old
                })
            },
            _ => new == old,
        }
    } else if nav_takes(old, key) {
        !leave && eff is Idle && navigates_on_key(old, key, new, true)
    } else {
        let m = after_nav_miss(old);
        if m.visual_line_select {
            &&& !leave
            &&& match key.code {
                KeyCode::Esc | KeyCode::Char('V') => eff is Idle && new.selected_log_line_marks@.len() == 0 && new == (App {
                    visual_line_select: false,
                    selected_log_line_marks: new.selected_log_line_marks,
                    ..m
                }),
                KeyCode::Char(' ') => eff is Idle && new.selected_log_line_marks@ == (match m.log_selected {
                    Some(i) => crate::search::toggled_marks(m.selected_log_line_marks@, i),
                    None => m.selected_log_line_marks@,
                }) && new == (App { selected_log_line_marks: new.selected_log_line_marks, ..m }),
                KeyCode::Char('y') | KeyCode::Enter => {
                    &&& new.selected_log_line_marks@.len() == 0
                    &&& new == (App { visual_line_select: false, selected_log_line_marks: new.selected_log_line_marks, ..m })
                    &&& match crate::search::mark_range(m.selected_log_line_marks@) {
                        Some((start, end)) => match crate::search::range_text(views(m.unit_logs@), start, end) {
                            Some(t) => eff matches Effect::CopyToClipboard(text) && text@ == t,
                            None => eff is Idle,
                        },
                        None => eff is Idle,
                    }
                },
                _ => eff is Idle && new == m,
            }
        } else if m.visual_select {
            &&& !leave
            &&& match key.code {
                KeyCode::Esc | KeyCode::Char('v') => eff is Idle && new.selected_log_lines@.len() == 0 && new.selected_log_line_marks@.len() == 0
                    && new == (App {
                    visual_select: false,
                    visual_line_select: false,
                    selected_log_lines: new.selected_log_lines,
                    selected_log_line_marks: new.selected_log_line_marks,
                    ..m
                }),
                KeyCode::Char(' ') => eff is Idle && match m.log_selected {
                    None => new == m,
                    Some(i) => new.selected_log_lines@.to_set() == (if m.selected_log_lines@.contains(i) {
                        m.selected_log_lines@.to_set().remove(i)
                    } else {
                        m.selected_log_lines@.to_set().insert(i)
                    }) && new == (App { selected_log_lines: new.selected_log_lines, ..m }),
                },
                KeyCode::Char('y') | KeyCode::Enter => {
                    let picked = crate::search::picked_lines(views(m.unit_logs@), m.selected_log_lines@);
                    &&& new.selected_log_lines@.len() == 0
                    &&& new.selected_log_line_marks@.len() == 0
                    &&& new == (App {
                        visual_select: false,
                        visual_line_select: false,
                        selected_log_lines: new.selected_log_lines,
                        selected_log_line_marks: new.selected_log_line_marks,
                        ..m
                    })
                    &&& if picked.len() > 0 {
                        eff matches Effect::CopyToClipboard(text) && text@ == join_seqs(picked, "\n"@)
                    } else {
                        eff is Idle
                    }
                },
                _ => eff is Idle && new == m,
            }
        } else {
            let has_logs = m.unit_logs.len() > 0;
            let highlight = match m.log_selected {
                Some(i) => Some(i),
                None => Some(0usize),
            };
            match key.code {
                KeyCode::Esc => !leave && eff is Idle && new.view_mode == ViewMode::UnitList
                    && leaves_log_modes(App { view_mode: ViewMode::UnitList, ..m }, new),
                KeyCode::Char('q') => leave && eff is Idle && new == m,
                KeyCode::Char('v') => !leave && eff is Idle && if has_logs {
                    new == (App { visual_select: true, log_selected: highlight, ..m })
                } else {
                    new == m
                },
                KeyCode::Char('V') => !leave && eff is Idle && if has_logs {
                    new.selected_log_line_marks@.len() == 0 && new == (App {
                        visual_line_select: true,
                        selected_log_line_marks: new.selected_log_line_marks,
                        log_selected: highlight,
                        ..m
                    })
                } else {
                    new == m
                },
                KeyCode::Char('/') => !leave && eff is Idle && if has_logs {
                    new == (App { log_search_mode: true, log_search_cursor: m.log_search_query@.len() as usize, ..m })
                } else {
                    new == m
                },
                KeyCode::Char('n') => !leave && eff is Idle && if m.log_search_query@.len() > 0 {
                    new == (App { log_selected: log_hit_after(m, m.log_search_query@, true), ..m })
                } else {
                    new == m
                },
                KeyCode::Char('N') => !leave && eff is Idle && if m.log_search_query@.len() > 0 {
                    new == (App { log_selected: log_hit_after(m, m.log_search_query@, false), ..m })
                } else {
                    new == m
                },
                KeyCode::Char('e') => eff is Idle && if has_logs {
                    &&& leave
                    &&& new.pending_action matches Some(PendingAction::EditText { filename, content })
                        && filename@ == "log-"@ + m.selected_unit_key.name@ + ".txt"@ && content@ == join_seqs(views(m.unit_logs@), "\n"@)
                    &&& new == (App { pending_action: new.pending_action, ..m })
                } else {
                    !leave && new == m
                },
                KeyCode::Char('r') => !leave && if key.modifiers.control {
                    match m.selected_unit() {
                        Some(u) => fetches_logs(m, u, new, eff),
                        None => new == m && eff is Idle,
                    }
                } else {
                    new == m && eff is Idle
                },
                _ => !leave && eff is Idle && new == m,
            }
        }
    }
}

/// `new` is `old` loading the journal of `unit`.
pub open spec fn fetches_logs(old: App, unit: UnitInfo, new: App, eff: Effect) -> bool {
    &&& new == (App { is_loading: true, ..old })
    &&& eff matches Effect::FetchLogs { unit_name, scope } && unit_name@ == unit.name@ && scope@ == unit.scope@
}

/// `new` is `old` with `mode`'s edit of the highlighted unit pending, when a
/// unit is highlighted.
pub open spec fn requests_edit(old: App, mode: UnitEditMode, new: App, leave: bool) -> bool {
    match old.selected_unit() {
        Some(u) => {
            &&& leave
            &&& new.pending_action matches Some(PendingAction::EditFile(req)) && is_edit_request(old, u, mode, req)
            &&& new == (App { pending_action: new.pending_action, ..old })
        },
        None => !leave && new == old,
    }
}

/// A key in the file view: its search, navigation and the view's own keys.
pub open spec fn file_view_on_key(old: App, key: KeyEvent, new: App, leave: bool, eff: Effect) -> bool {
    &&& eff is Idle
    &&& if old.file_search_mode {
        &&& !leave
        &&& match key.code {
            KeyCode::Esc => new.file_search_query@.len() == 0 && new == (App {
                file_search_mode: false,
                file_search_query: new.file_search_query,
                file_search_cursor: 0,
                file_search_match: None,
                ..old
            }),
            KeyCode::Enter => new == (App { file_search_mode: false, ..old }),
            KeyCode::Left | KeyCode::Right => new.file_search_query@ == edited_query(old.file_search_query@, old.file_search_cursor, key.code)
                && new == (App {
                file_search_query: new.file_search_query,
                file_search_cursor: edited_cursor(old.file_search_query@, old.file_search_cursor, key.code),
                ..old
            }),
            KeyCode::Backspace | KeyCode::Char(_) => {
                let q = edited_query(old.file_search_query@, old.file_search_cursor, key.code);
                &&& new.file_search_query@ == q
                &&& new == (App {
                    file_search_query: new.file_search_query,
                    file_search_cursor: edited_cursor(old.file_search_query@, old.file_search_cursor, key.code),
                    file_search_match: file_hit_after(old, q, true).0,
                    file_scroll: file_hit_after(old, q, true).1,
                    ..old
                })
            },
            _ => new == old,
        }
    } else if nav_takes(old, key) {
        !leave && navigates_on_key(old, key, new, true)
    } else {
        let m = after_nav_miss(old);
        let has_path = m.unit_file_path@.len() > 0;
        match key.code {
            KeyCode::Char('q') => leave && new == m,
            KeyCode::Esc => !leave && new.file_search_query@.len() == 0 && new == (App {
                view_mode: ViewMode::UnitList,
                file_search_mode: false,
                file_search_query: new.file_search_query,
                file_search_cursor: 0,
                file_search_match: None,
                ..m
            }),
            KeyCode::Char('e') => if has_path {
                requests_edit(m, UnitEditMode::Override, new, leave)
            } else {
                !leave && new == m
            },
            KeyCode::Char('E') => if has_path {
                requests_edit(m, UnitEditMode::Full, new, leave)
            } else {
                !leave && new == m
            },
            KeyCode::Char('/') => !leave && if m.unit_file_content@.len() > 0 {
                new == (App { file_search_mode: true, file_search_cursor: m.file_search_query@.len() as usize, ..m })
            } else {
                new == m
            },
            KeyCode::Char('n') => !leave && if m.file_search_query@.len() > 0 {
                new == (App {
                    file_search_match: file_hit_after(m, m.file_search_query@, true).0,
                    file_scroll: file_hit_after(m, m.file_search_query@, true).1,
                    ..m
                })
            } else {
                new == m
            },
            KeyCode::Char('N') => !leave && if m.file_search_query@.len() > 0 {
                new == (App {
                    file_search_match: file_hit_after(m, m.file_search_query@, false).0,
                    file_scroll: file_hit_after(m, m.file_search_query@, false).1,
                    ..m
                })
            } else {
                new == m
            },
            _ => !leave && new == m,
        }
    }
}

/// The action that runs command `name` on `unit`.
pub open spec fn command_on(unit: UnitInfo, action: crate::models::UnitAction) -> PrivilegedAction {
    PrivilegedAction::UnitCommand { unit_name: unit.name, scope: unit.scope, action }
}

/// Opening the file view: with a unit selected, the view switches to an
/// empty, unscrolled file view and the unit's file is loaded; otherwise
/// nothing happens.
pub open spec fn enters_file_view(m: App, new: App, eff: Effect) -> bool {
    match m.selected_unit() {
        Some(u) => {
            &&& new.unit_file_content@.len() == 0
            &&& new.unit_file_path@.len() == 0
            &&& new == (App {
                view_mode: ViewMode::FileView,
                unit_file_content: new.unit_file_content,
                unit_file_path: new.unit_file_path,
                file_scroll: 0,
                is_loading: true,
                ..m
            })
            &&& eff == Effect::FetchUnitFile(u)
        },
        None => new == m && eff is Idle,
    }
}

/// A key in the unit list: its search, an open filter menu, navigation, and
/// the list's own keys, including the unit commands.
pub open spec fn unit_list_on_key(old: App, key: KeyEvent, new: App, leave: bool, eff: Effect) -> bool {
    if old.is_searching {
        &&& !leave
        &&& eff is Idle
        &&& match key.code {
            KeyCode::Esc | KeyCode::Enter => new == (App { is_searching: false, ..old }),
            KeyCode::Left | KeyCode::Right | KeyCode::Backspace | KeyCode::Char(_) => {
                &&& new.search_query@ == edited_query(old.search_query@, old.search_cursor, key.code)
                &&& refilters(
                    App {
                        search_query: new.search_query,
                        search_cursor: edited_cursor(old.search_query@, old.search_cursor, key.code),
                        ..old
                    },
                    new,
                )
            },
            _ => new == old,
        }
    } else if old.open_filter_menu is Some {
        !leave && eff is Idle && filter_menu_on_key(old, key, new)
    } else if nav_takes(old, key) {
        !leave && eff is Idle && navigates_on_key(old, key, new, true)
    } else {
        let m = after_nav_miss(old);
        match key.code {
            KeyCode::Char('q') => leave && new == m && eff is Idle,
            KeyCode::Char('/') => !leave && eff is Idle && new == (App {
                is_searching: true,
                search_cursor: m.search_query@.len() as usize,
                ..m
            }),
            KeyCode::Char('a') => !leave && eff is Idle && new == (App { open_filter_menu: Some(FilterMenu::Active), ..m }),
            KeyCode::Char('n') => !leave && eff is Idle && new == (App { open_filter_menu: Some(FilterMenu::Enablement), ..m }),
            KeyCode::Char('o') => !leave && eff is Idle && new == (App { open_filter_menu: Some(FilterMenu::Load), ..m }),
            KeyCode::Char('p') => !leave && eff is Idle && new == (App { open_filter_menu: Some(FilterMenu::Scope), ..m }),
            KeyCode::Char('l') | KeyCode::Enter => !leave && match m.selected_unit() {
                Some(u) => {
                    &&& new.unit_logs@.len() == 0
                    &&& new.view_mode == ViewMode::LogView
                    &&& new.log_selected is None
                    &&& new.is_loading
                    &&& !new.visual_select
                    &&& !new.visual_line_select
                    &&& new.selected_log_lines@.len() == 0
                    &&& new.selected_log_line_marks@.len() == 0
                    &&& new == (App {
                        view_mode: ViewMode::LogView,
                        unit_logs: new.unit_logs,
                        log_selected: None,
                        visual_select: false,
                        visual_line_select: false,
                        selected_log_lines: new.selected_log_lines,
                        selected_log_line_marks: new.selected_log_line_marks,
                        is_loading: true,
                        ..m
                    })
                    &&& eff matches Effect::FetchLogs { unit_name, scope } && unit_name@ == u.name@ && scope@ == u.scope@
                },
                None => new == m && eff is Idle,
            },
            KeyCode::Char('v') => !leave && enters_file_view(m, new, eff),
            _ => !leave && match (m.selected_unit(), command_for_key(key)) {
                (Some(u), Some(name)) => match command_action(name) {
                    Some(a) => starts_auth(m, command_on(u, a), new, eff),
                    None => new == m && eff is Idle,
                },
                _ => new == m && eff is Idle,
            },
        }
    }
}


/// `new` is `old` after a background result, and `effs` the outside work it asks for:
/// a reloaded unit list is refiltered keeping the highlighted unit; loaded logs
/// are shown from their last line; a loaded file is shown; terminal output is
/// added to the prompt; a closed terminal ends the prompt; an authorization
/// result stops the prompt and, on success, reloads the units (an applied edit
/// also leaves the file view); an error only ends loading.
pub open spec fn handles_event(old: App, event: AppInternalEvent, new: App, effs: Seq<Effect>) -> bool {
    match event {
        AppInternalEvent::UnitsLoaded(units) => effs.len() == 0 && refilters_keeping(
            App { units: units, is_loading: false, ..old },
            selected_key(old),
            new,
        ),
        AppInternalEvent::LogsLoaded(logs) => effs.len() == 0 && new == (App {
            unit_logs: logs,
            is_loading: false,
            log_selected: Some(if logs.len() > 0 { (logs.len() - 1) as usize } else { 0usize }),
            ..old
        }),
        AppInternalEvent::FileLoaded(content, path) => effs.len() == 0 && new == (App {
            unit_file_content: content,
            unit_file_path: path,
            is_loading: false,
            ..old
        }),
        AppInternalEvent::PtyOutput(chunk) => effs.len() == 0 && match old.auth_prompt {
            Some(out) => new.auth_prompt matches Some(o) && o@ == out@ + chunk@ && new == (App { auth_prompt: new.auth_prompt, ..old }),
            None => new == old,
        },
        AppInternalEvent::PtyClosed => effs.len() == 0 && new == (App { auth_prompt: None, ..old }),
        AppInternalEvent::AuthResult(result) => {
            let base = App { auth_prompt: None, active_privileged_action: None, ..old };
            let stop: Seq<Effect> = if old.auth_prompt is Some {
                seq![Effect::StopAuthPane]
            } else {
                Seq::empty()
            };
            if result.success {
                match old.active_privileged_action {
                    Some(PrivilegedAction::UnitCommand { .. }) => new == (App { is_loading: true, ..base })
                        && effs.len() == stop.len() + 1 && effs.take(stop.len() as int) == stop && effs.last() is RefreshUnits,
                    Some(PrivilegedAction::ApplyEdit { .. }) => {
                        &&& new.unit_file_content@.len() == 0
                        &&& new.unit_file_path@.len() == 0
                        &&& new == (App {
                            pending_edit_review: None,
                            view_mode: ViewMode::UnitList,
                            unit_file_content: new.unit_file_content,
                            unit_file_path: new.unit_file_path,
                            file_scroll: 0,
                            is_loading: true,
                            ..base
                        })
                        &&& effs.len() == stop.len() + 1 && effs.take(stop.len() as int) == stop && effs.last() is RefreshUnits
                    },
                    None => new == base && effs == stop,
                }
            } else {
                new == base && effs == stop
            }
        },
        AppInternalEvent::Error(_) => effs.len() == 0 && new == (App { is_loading: false, ..old }),
    }
}

/// Any key press: authentication comes first, then a draft under review, then
/// the shown view. `leave` asks the front end to quit, or to run the pending editor.
pub open spec fn handles_key(old: App, key: KeyEvent, new: App, leave: bool, eff: Effect) -> bool {
    if old.auth_prompt is Some {
        auth_on_key(old, key, new, leave, eff)
    } else if old.pending_edit_review is Some {
        !leave && review_on_key(old, key, new, eff)
    } else {
        match old.view_mode {
            ViewMode::LogView => log_view_on_key(old, key, new, leave, eff),
            ViewMode::FileView => file_view_on_key(old, key, new, leave, eff),
            ViewMode::UnitList => unit_list_on_key(old, key, new, leave, eff),
        }
    }
}


impl App {
    /// Begins an authentication flow for `action`, unless one runs already.
    pub fn start_embedded_auth(&mut self, action: PrivilegedAction) -> (eff: Effect)
        ensures
            starts_auth(*old(self), action, *final(self), eff),
    {
        if self.auth_prompt.is_some() {
            return Effect::Idle;
        }
        self.auth_prompt = Some(String::new());
        self.active_privileged_action = Some(action.clone());
        Effect::Authorize(action)
    }

    /// Abandons the running authentication flow and its action.
    pub fn cancel_embedded_auth(&mut self, _reason: &str) -> (eff: Effect)
        ensures
            cancels_auth(*old(self), *final(self), eff),
    {
        self.active_privileged_action = None;
        match self.auth_prompt.take() {
            Some(_) => Effect::CancelAuth,
            None => Effect::Idle,
        }
    }

    /// Starts loading the journal of `unit_name` in `scope`.
    pub fn fetch_unit_logs(&mut self, unit_name: String, scope: String) -> (eff: Effect)
        ensures
            *final(self) == (App { is_loading: true, ..*old(self) }),
            eff == (Effect::FetchLogs { unit_name, scope }),
    {
        self.is_loading = true;
        Effect::FetchLogs { unit_name, scope }
    }

    /// Starts loading the file of `unit`.
    pub fn fetch_unit_file(&mut self, unit: UnitInfo) -> (eff: Effect)
        ensures
            *final(self) == (App { is_loading: true, ..*old(self) }),
            eff == Effect::FetchUnitFile(unit),
    {
        self.is_loading = true;
        Effect::FetchUnitFile(unit)
    }

    /// Opens the file view of the selected unit and starts loading its file.
    pub fn enter_file_view(&mut self) -> (eff: Effect)
        requires
            old(self).wf(),
        ensures
            final(self).wf(),
            enters_file_view(*old(self), *final(self), eff),
    {
        let target = match self.get_selected_unit() {
            Some(u) => Some(u.clone()),
            None => None,
        };
        match target {
            Some(unit) => {
                self.view_mode = ViewMode::FileView;
                self.unit_file_content = String::new();
                self.unit_file_path = String::new();
                self.file_scroll = 0;
                self.fetch_unit_file(unit)
            },
            None => Effect::Idle,
        }
    }

    /// Starts reloading the unit list.
    pub fn refresh_units(&mut self) -> (eff: Effect)
        ensures
            *final(self) == (App { is_loading: true, ..*old(self) }),
            eff is RefreshUnits,
    {
        self.is_loading = true;
        Effect::RefreshUnits
    }

    /// A key while a draft waits for review.
    pub fn handle_edit_review_key(&mut self, key: KeyEvent) -> (eff: Effect)
        requires
            old(self).wf(),
        ensures
            final(self).wf(),
            review_on_key(*old(self), key, *final(self), eff),
    {
        match key.code {
            KeyCode::Esc | KeyCode::Char('q') | KeyCode::Char('d') => {
                self.discard_edit_review();
                Effect::Idle
            },
            KeyCode::Char('a') | KeyCode::Enter => {
                let action = match &self.pending_edit_review {
                    Some(review) => PrivilegedAction::ApplyEdit {
                        unit_name: review.unit_name.clone(),
                        scope: review.scope.clone(),
                        mode: review.mode,
                        content: review.edited_content.clone(),
                    },
                    None => return Effect::Idle,
                };
                self.start_embedded_auth(action)
            },
            _ => Effect::Idle,
        }
    }

    /// A key in an open filter menu.
    pub fn handle_filter_menu_key(&mut self, key: KeyEvent)
        requires
            old(self).wf(),
        ensures
            final(self).wf(),
            filter_menu_on_key(*old(self), key, *final(self)),
    {
        match key.code {
            KeyCode::Esc | KeyCode::Char('q') => {
                self.open_filter_menu = None;
            },
            KeyCode::Char(c) => {
                let menu = match self.open_filter_menu {
                    Some(menu) => menu,
                    None => return,
                };
                let ghost before = *self;
                let wanted = to_ascii_lowercase(c);
                let options = self.filter_menu_options(menu);
                let ghost opts = options@;
                let mut k: usize = 0;
                while k < options.len() && options[k].hotkey != wanted
                    invariant
                        k <= options.len(),
                        options@ == opts,
                        forall|j: int| 0 <= j < k ==> opts[j].hotkey != wanted,
                    decreases options.len() - k,
                {
                    k += 1;
                }
                proof {
                    lemma_option_with_key(opts, wanted, k as int);
                }
                if k < options.len() {
                    let mut options = options;
                    let option = options.remove(k);
                    assert(option == opts[k as int]);
                    menu.set_selected_value(self, option.value);
                    self.open_filter_menu = None;
                    assert(*self == with_menu_value(before, menu, opts[k as int].value));
                    self.update_filter();
                }
                assert(is_menu_options(before, menu, opts));
            },
            _ => {},
        }
    }
}

proof fn lemma_option_with_key(r: Seq<FilterMenuOption>, c: char, k: int)
    requires
        0 <= k <= r.len(),
        forall|j: int| 0 <= j < k ==> r[j].hotkey != c,
        k < r.len() ==> r[k].hotkey == c,
    ensures
        k < r.len() ==> option_with_key(r, c) == Some(k),
        k == r.len() ==> option_with_key(r, c) is None,
    decreases r.len(),
{
    if r.len() > 0 {
        if k == r.len() {
            lemma_option_with_key(r.drop_last(), c, k - 1);
        } else if k == r.len() - 1 {
            lemma_option_with_key(r.drop_last(), c, k);
        } else {
            lemma_option_with_key(r.drop_last(), c, k);
        }
    }
}


impl App {
    /// A key in the log view; returns whether to leave the interface (to quit,
    /// or for the editor) and the outside work to do.
    pub fn handle_log_view_key(&mut self, key: KeyEvent) -> (r: (bool, Effect))
        requires
            old(self).wf(),
        ensures
            final(self).wf(),
            log_view_on_key(*old(self), key, *final(self), r.0, r.1),
    {
        if self.log_search_mode {
            match key.code {
                KeyCode::Esc => self.clear_log_search(),
                KeyCode::Enter => self.log_search_mode = false,
                KeyCode::Left | KeyCode::Right => self.edit_log_search_key(key),
                KeyCode::Backspace | KeyCode::Char(_) => {
                    self.edit_log_search_key(key);
                    self.cycle_log_search_match(true);
                },
                _ => {},
            }
            return (false, Effect::Idle);
        }
        if self.handle_nav_key(key) {
            return (false, Effect::Idle);
        }
        if self.visual_line_select {
            match key.code {
                KeyCode::Esc | KeyCode::Char('V') => {
                    self.visual_line_select = false;
                    self.selected_log_line_marks = Vec::new();
                },
                KeyCode::Char(' ') => self.toggle_log_line_mark(),
                KeyCode::Char('y') | KeyCode::Enter => {
                    let text = self.selected_log_lines_text();
                    self.visual_line_select = false;
                    self.selected_log_line_marks = Vec::new();
                    if let Some(t) = text {
                        return (false, Effect::CopyToClipboard(t));
                    }
                },
                _ => {},
            }
            return (false, Effect::Idle);
        }
        if self.visual_select {
            match key.code {
                KeyCode::Esc | KeyCode::Char('v') => self.clear_log_visual_modes(),
                KeyCode::Char(' ') => self.toggle_selected_log_line(),
                KeyCode::Char('y') | KeyCode::Enter => {
                    let text = self.visual_selection_text();
                    self.clear_log_visual_modes();
                    if let Some(t) = text {
                        return (false, Effect::CopyToClipboard(t));
                    }
                },
                _ => {},
            }
            return (false, Effect::Idle);
        }
        let has_logs = self.unit_logs.len() > 0;
        match key.code {
            KeyCode::Esc => {
                self.view_mode = ViewMode::UnitList;
                self.clear_log_visual_modes();
                self.clear_log_search();
            },
            KeyCode::Char('q') => return (true, Effect::Idle),
            KeyCode::Char('v') => {
                if has_logs {
                    self.visual_select = true;
                    if self.log_selected.is_none() {
                        self.log_selected = Some(0);
                    }
                }
            },
            KeyCode::Char('V') => {
                if has_logs {
                    self.visual_line_select = true;
                    self.selected_log_line_marks = Vec::new();
                    if self.log_selected.is_none() {
                        self.log_selected = Some(0);
                    }
                }
            },
            KeyCode::Char('/') => {
                if has_logs {
                    self.start_log_search();
                }
            },
            KeyCode::Char('n') => {
                if !self.log_search_query.as_str().is_empty() {
                    self.cycle_log_search_match(true);
                }
            },
            KeyCode::Char('N') => {
                if !self.log_search_query.as_str().is_empty() {
                    self.cycle_log_search_match(false);
                }
            },
            KeyCode::Char('e') => {
                if has_logs {
                    let mut filename = String::from_str("log-");
                    push_str(&mut filename, self.selected_unit_key.name.as_str());
                    push_str(&mut filename, ".txt");
                    let content = join(&self.unit_logs, "\n");
                    self.pending_action = Some(PendingAction::EditText { filename, content });
                    return (true, Effect::Idle);
                }
            },
            KeyCode::Char('r') => {
                if key.modifiers.control {
                    let target = match self.get_selected_unit() {
                        Some(u) => Some((u.name.clone(), u.scope.clone())),
                        None => None,
                    };
                    if let Some((name, scope)) = target {
                        let eff = self.fetch_unit_logs(name, scope);
                        return (false, eff);
                    }
                }
            },
            _ => {},
        }
        (false, Effect::Idle)
    }
}


impl App {
    /// A key in the file view; returns whether to leave the interface (to quit,
    /// or for the editor) and the outside work to do.
    pub fn handle_file_view_key(&mut self, key: KeyEvent) -> (r: (bool, Effect))
        requires
            old(self).wf(),
        ensures
            final(self).wf(),
            file_view_on_key(*old(self), key, *final(self), r.0, r.1),
    {
        if self.file_search_mode {
            match key.code {
                KeyCode::Esc => self.clear_file_search(),
                KeyCode::Enter => self.file_search_mode = false,
                KeyCode::Left | KeyCode::Right => self.edit_file_search_key(key),
                KeyCode::Backspace | KeyCode::Char(_) => {
                    self.edit_file_search_key(key);
                    self.cycle_file_search_match(true);
                },
                _ => {},
            }
            return (false, Effect::Idle);
        }
        if self.handle_nav_key(key) {
            return (false, Effect::Idle);
        }
        let has_path = !self.unit_file_path.as_str().is_empty();
        match key.code {
            KeyCode::Esc => {
                self.view_mode = ViewMode::UnitList;
                self.clear_file_search();
            },
            KeyCode::Char('q') => return (true, Effect::Idle),
            KeyCode::Char('e') => {
                if has_path {
                    if let Some(request) = self.build_edit_request(UnitEditMode::Override) {
                        self.pending_action = Some(PendingAction::EditFile(request));
                        return (true, Effect::Idle);
                    }
                }
            },
            KeyCode::Char('E') => {
                if has_path {
                    if let Some(request) = self.build_edit_request(UnitEditMode::Full) {
                        self.pending_action = Some(PendingAction::EditFile(request));
                        return (true, Effect::Idle);
                    }
                }
            },
            KeyCode::Char('/') => {
                if !self.unit_file_content.as_str().is_empty() {
                    self.start_file_search();
                }
            },
            KeyCode::Char('n') => {
                if !self.file_search_query.as_str().is_empty() {
                    self.cycle_file_search_match(true);
                }
            },
            KeyCode::Char('N') => {
                if !self.file_search_query.as_str().is_empty() {
                    self.cycle_file_search_match(false);
                }
            },
            _ => {},
        }
        (false, Effect::Idle)
    }

    /// A key in the unit list; returns whether to quit and the outside work to do.
    pub fn handle_unit_list_key(&mut self, key: KeyEvent) -> (r: (bool, Effect))
        requires
            old(self).wf(),
        ensures
            final(self).wf(),
            unit_list_on_key(*old(self), key, *final(self), r.0, r.1),
    {
        if self.is_searching {
            match key.code {
                KeyCode::Esc | KeyCode::Enter => self.is_searching = false,
                KeyCode::Left | KeyCode::Right | KeyCode::Backspace | KeyCode::Char(_) => {
                    self.edit_unit_search_key(key);
                    self.update_filter();
                },
                _ => {},
            }
            return (false, Effect::Idle);
        }
        if self.open_filter_menu.is_some() {
            self.handle_filter_menu_key(key);
            return (false, Effect::Idle);
        }
        if self.handle_nav_key(key) {
            return (false, Effect::Idle);
        }
        match key.code {
            KeyCode::Char('q') => (true, Effect::Idle),
            KeyCode::Char('/') => {
                self.is_searching = true;
                self.set_search_cursor_to_end();
                (false, Effect::Idle)
            },
            KeyCode::Char('a') => {
                self.open_filter_menu = Some(FilterMenu::Active);
                (false, Effect::Idle)
            },
            KeyCode::Char('n') => {
                self.open_filter_menu = Some(FilterMenu::Enablement);
                (false, Effect::Idle)
            },
            KeyCode::Char('o') => {
                self.open_filter_menu = Some(FilterMenu::Load);
                (false, Effect::Idle)
            },
            KeyCode::Char('p') => {
                self.open_filter_menu = Some(FilterMenu::Scope);
                (false, Effect::Idle)
            },
            KeyCode::Char('l') | KeyCode::Enter => {
                let target = match self.get_selected_unit() {
                    Some(u) => Some((u.name.clone(), u.scope.clone())),
                    None => None,
                };
                match target {
                    Some((name, scope)) => {
                        self.view_mode = ViewMode::LogView;
                        self.unit_logs = Vec::new();
                        self.log_selected = None;
                        self.clear_log_visual_modes();
                        let eff = self.fetch_unit_logs(name, scope);
                        (false, eff)
                    },
                    None => (false, Effect::Idle),
                }
            },
            KeyCode::Char('v') => {
                let eff = self.enter_file_view();
                (false, eff)
            },
            _ => {
                match unit_command_for_key(key) {
                    Some(name) => match self.trigger_selected_unit_command(name) {
                        Some(action) => {
                            let eff = self.start_embedded_auth(action);
                            (false, eff)
                        },
                        None => (false, Effect::Idle),
                    },
                    None => (false, Effect::Idle),
                }
            },
        }
    }

    /// Any key press: authentication first, then a draft under review, then the
    /// shown view. Returns whether to leave the interface (to quit, or to run
    /// the pending editor) and the outside work to do.
    pub fn handle_key(&mut self, key: KeyEvent) -> (r: (bool, Effect))
        requires
            old(self).wf(),
        ensures
            final(self).wf(),
            handles_key(*old(self), key, *final(self), r.0, r.1),
    {
        if self.auth_prompt.is_some() {
            if key.modifiers.control && key.code == KeyCode::Char('q') {
                return (true, Effect::Idle);
            }
            if key.code == KeyCode::Esc || (key.modifiers.control && key.code == KeyCode::Char('c')) {
                let eff = self.cancel_embedded_auth("authentication cancelled");
                return (false, eff);
            }
            return (false, Effect::ForwardToAuth(key));
        }
        if self.pending_edit_review.is_some() {
            let eff = self.handle_edit_review_key(key);
            return (false, eff);
        }
        match self.view_mode {
            ViewMode::LogView => self.handle_log_view_key(key),
            ViewMode::FileView => self.handle_file_view_key(key),
            ViewMode::UnitList => self.handle_unit_list_key(key),
        }
    }
}


impl App {
    /// Applies a background result; returns the outside work it asks for.
    pub fn handle_internal_event(&mut self, event: AppInternalEvent) -> (effs: Vec<Effect>)
        requires
            old(self).wf(),
        ensures
            final(self).wf(),
            handles_event(*old(self), event, *final(self), effs@),
    {
        let mut effs: Vec<Effect> = Vec::new();
        match event {
            AppInternalEvent::UnitsLoaded(units) => {
                let selected: Option<crate::state::UnitSelectionKey> = match self.get_selected_unit() {
                    Some(u) => Some(App::selected_unit_key_for(u)),
                    None => None,
                };
                self.units = units;
                self.is_loading = false;
                match &selected {
                    Some(k) => self.refilter(Some(k)),
                    None => self.refilter(None),
                }
            },
            AppInternalEvent::LogsLoaded(logs) => {
                self.unit_logs = logs;
                self.is_loading = false;
                let n = self.unit_logs.len();
                self.log_selected = Some(if n > 0 { n - 1 } else { 0 });
            },
            AppInternalEvent::FileLoaded(content, path) => {
                self.unit_file_content = content;
                self.unit_file_path = path;
                self.is_loading = false;
            },
            AppInternalEvent::PtyOutput(chunk) => {
                match self.auth_prompt.take() {
                    Some(mut out) => {
                        push_str(&mut out, chunk.as_str());
                        self.auth_prompt = Some(out);
                    },
                    None => {},
                }
            },
            AppInternalEvent::PtyClosed => {
                self.auth_prompt = None;
            },
            AppInternalEvent::AuthResult(result) => {
                if self.auth_prompt.take().is_some() {
                    effs.push(Effect::StopAuthPane);
                }
                let action = self.active_privileged_action.take();
                let ghost stop = effs@;
                if result.success {
                    match action {
                        Some(PrivilegedAction::UnitCommand { .. }) => {
                            let eff = self.refresh_units();
                            effs.push(eff);
                        },
                        Some(PrivilegedAction::ApplyEdit { .. }) => {
                            self.pending_edit_review = None;
                            self.view_mode = ViewMode::UnitList;
                            self.unit_file_content = String::new();
                            self.unit_file_path = String::new();
                            self.file_scroll = 0;
                            let eff = self.refresh_units();
                            effs.push(eff);
                        },
                        None => {},
                    }
                    assert(effs@.take(stop.len() as int) == stop);
                }
            },
            AppInternalEvent::Error(_) => {
                self.is_loading = false;
            },
        }
        effs
    }
}

impl App {
    /// Moves the highlight of the current view, or scrolls the file.
    pub fn perform_nav(&mut self, action: NavAction)
        requires
            old(self).wf(),
        ensures
            final(self).wf(),
            navigates(*old(self), action, *final(self)),
    {
        let height: i32 = self.last_area_height as i32;
        let half_height: i32 = height / 2;
        match self.view_mode {
            ViewMode::UnitList => match action {
                NavAction::Up => self.move_selection(-1),
                NavAction::Down => self.move_selection(1),
                NavAction::HalfPageUp => self.move_selection(-half_height),
                NavAction::HalfPageDown => self.move_selection(half_height),
                NavAction::PageUp => self.move_selection(-height),
                NavAction::PageDown => self.move_selection(height),
                NavAction::Top => self.select_filtered_unit_index(Some(0)),
                NavAction::Bottom => {
                    if self.filtered_units.len() > 0 {
                        let last = self.filtered_units.len() - 1;
                        self.select_filtered_unit_index(Some(last));
                    }
                },
            },
            ViewMode::LogView => match action {
                NavAction::Up => self.move_log_selection(-1),
                NavAction::Down => self.move_log_selection(1),
                NavAction::HalfPageUp => self.move_log_selection(-half_height),
                NavAction::HalfPageDown => self.move_log_selection(half_height),
                NavAction::PageUp => self.move_log_selection(-height),
                NavAction::PageDown => self.move_log_selection(height),
                NavAction::Top => self.log_selected = Some(0),
                NavAction::Bottom => {
                    if self.unit_logs.len() > 0 {
                        self.log_selected = Some(self.unit_logs.len() - 1);
                    }
                },
            },
            ViewMode::FileView => {
                let count = lines(self.unit_file_content.as_str()).len();
                let total_lines: i32 = count as i32;
                let s = self.file_scroll;
                let moved: u16 = match action {
                    NavAction::Up => s.saturating_sub(1),
                    NavAction::Down => s.saturating_add(1),
                    NavAction::HalfPageUp => s.saturating_sub(half_height as u16),
                    NavAction::HalfPageDown => s.saturating_add(half_height as u16),
                    NavAction::PageUp => s.saturating_sub(height as u16),
                    NavAction::PageDown => s.saturating_add(height as u16),
                    NavAction::Top => 0,
                    NavAction::Bottom => clamp_to_u16(sat_sub_i32_exec(total_lines, height)),
                };
                let cap = clamp_to_u16(sat_sub_i32_exec(total_lines, 1));
                self.file_scroll = if moved < cap {
                    moved
                } else {
                    cap
                };
            },
        }
    }

    /// Offers a key to navigation; returns whether navigation took it.
    pub fn handle_nav_key(&mut self, key: KeyEvent) -> (taken: bool)
        requires
            old(self).wf(),
        ensures
            final(self).wf(),
            navigates_on_key(*old(self), key, *final(self), taken),
    {
        if self.pending_nav_prefix == Some('g') {
            self.pending_nav_prefix = None;
            if key.code == KeyCode::Char('g') {
                self.perform_nav(NavAction::Top);
                return true;
            }
        }
        let action = match key.code {
            KeyCode::Char('j') | KeyCode::Down => Some(NavAction::Down),
            KeyCode::Char('k') | KeyCode::Up => Some(NavAction::Up),
            KeyCode::Char('G') => Some(NavAction::Bottom),
            KeyCode::Char('g') => {
                self.pending_nav_prefix = Some('g');
                return true;
            },
            KeyCode::Char('u') if key.modifiers.control => Some(NavAction::HalfPageUp),
            KeyCode::Char('d') if key.modifiers.control => Some(NavAction::HalfPageDown),
            KeyCode::Char('f') if key.modifiers.control => Some(NavAction::PageDown),
            KeyCode::Char('b') if key.modifiers.control => Some(NavAction::PageUp),
            _ => None,
        };
        match action {
            Some(a) => {
                self.perform_nav(a);
                true
            },
            None => false,
        }
    }
}

/// `a - b` kept within the range of `i32`.
fn sat_sub_i32_exec(a: i32, b: i32) -> (r: i32)
    ensures
        r == sat_sub_i32(a as int, b as int),
{
    let d: i64 = a as i64 - b as i64;
    if d < i32::MIN as i64 {
        i32::MIN
    } else if d > i32::MAX as i64 {
        i32::MAX
    } else {
        d as i32
    }
}

} // verus!
