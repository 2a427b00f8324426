//! The state of the interface: the unit list, its filters and search, the log
//! view and the unit file view.
use vstd::prelude::*;
use crate::bindings::{fuzzy_match, fuzzy_score};
use crate::models::{EditReview, PendingAction, PrivilegedAction, UnitInfo};
use crate::text::{lines, push_str, text_lines};

verus! {

/// Which screen is shown.
#[derive(Debug, Clone, Copy, PartialEq, Eq, Structural)]
pub enum ViewMode {
    UnitList,
    LogView,
    FileView,
}

/// A cursor movement.
#[derive(Debug, Clone, Copy, PartialEq, Eq, Structural)]
pub enum NavAction {
    Up,
    Down,
    PageUp,
    PageDown,
    HalfPageUp,
    HalfPageDown,
    Top,
    Bottom,
}

/// One of the four unit filters.
#[derive(Debug, Clone, Copy, PartialEq, Eq, Structural)]
pub enum FilterMenu {
    Active,
    Enablement,
    Load,
    Scope,
}

/// One entry of an open filter menu.
#[derive(Debug)]
pub struct FilterMenuOption {
    pub hotkey: char,
    pub label: String,
    pub value: Option<String>,
    pub selected: bool,
    pub count: usize,
}

/// What identifies a unit across reloads of the unit list.
#[derive(Debug)]
pub struct UnitSelectionKey {
    pub name: String,
    pub scope: String,
    pub path: String,
}

impl Clone for UnitSelectionKey {
    fn clone(&self) -> (r: Self)
        ensures
            r == *self,
    {
        UnitSelectionKey { name: self.name.clone(), scope: self.scope.clone(), path: self.path.clone() }
    }
}

impl Default for UnitSelectionKey {
    fn default() -> (r: Self)
        ensures
            r@ == (Seq::<char>::empty(), Seq::<char>::empty(), Seq::<char>::empty()),
    {
        UnitSelectionKey { name: String::new(), scope: String::new(), path: String::new() }
    }
}

impl View for UnitSelectionKey {
    type V = (Seq<char>, Seq<char>, Seq<char>);

    open spec fn view(&self) -> (Seq<char>, Seq<char>, Seq<char>) {
        (self.name@, self.scope@, self.path@)
    }
}

/// The key of a unit: its name, scope and object path.
pub open spec fn unit_key(unit: UnitInfo) -> (Seq<char>, Seq<char>, Seq<char>) {
    (unit.name@, unit.scope@, unit.path@)
}

/// The whole interface state.
pub struct App {
    pub units: Vec<UnitInfo>,
    /// Positions in `units` of the units shown, in display order.
    pub filtered_units: Vec<usize>,
    /// The highlighted row of the unit list, a position in `filtered_units`.
    pub list_selected: Option<usize>,
    pub selected_unit_key: UnitSelectionKey,
    pub search_query: String,
    pub is_searching: bool,
    pub active_state_filter: Option<String>,
    pub enablement_state_filter: Option<String>,
    pub load_state_filter: Option<String>,
    pub scope_filter: Option<String>,
    pub open_filter_menu: Option<FilterMenu>,
    pub view_mode: ViewMode,
    pub unit_logs: Vec<String>,
    /// The highlighted log line.
    pub log_selected: Option<usize>,
    pub last_area_height: u16,
    pub unit_file_content: String,
    pub unit_file_path: String,
    pub file_scroll: u16,
    pub file_search_mode: bool,
    pub file_search_query: String,
    pub file_search_cursor: usize,
    pub file_search_match: Option<usize>,
    pub pending_action: Option<PendingAction>,
    pub pending_edit_review: Option<EditReview>,
    /// While an authentication prompt runs: the text its terminal printed so far.
    pub auth_prompt: Option<String>,
    pub active_privileged_action: Option<PrivilegedAction>,
    pub is_loading: bool,
    pub visual_select: bool,
    pub visual_line_select: bool,
    pub search_cursor: usize,
    pub log_search_mode: bool,
    pub log_search_query: String,
    pub log_search_cursor: usize,
    /// The log lines picked in visual select mode, in increasing order.
    pub selected_log_lines: Vec<usize>,
    /// The ends of the line range picked in line-wise select mode, oldest first.
    pub selected_log_line_marks: Vec<usize>,
    pub pending_nav_prefix: Option<char>,
}

/// `s` is strictly increasing.
pub open spec fn strictly_increasing(s: Seq<usize>) -> bool {
    forall|i: int, j: int| 0 <= i < j < s.len() ==> s[i] < s[j]
}

/// A filter accepts a value: no filter, or the same text.
pub open spec fn filter_accepts(selected: Option<String>, actual: Seq<char>) -> bool {
    match selected {
        Some(expected) => expected@ == actual,
        None => true,
    }
}

/// The text the fuzzy search runs against: name, a space, description.
pub open spec fn search_target(unit: UnitInfo) -> Seq<char> {
    unit.name@ + " "@ + unit.description@
}

impl App {
    /// The shown rows point into the unit list, and the visual selection is a
    /// sorted set of lines.
    pub open spec fn wf(&self) -> bool {
        &&& forall|i: int| 0 <= i < self.filtered_units.len() ==> #[trigger] self.filtered_units@[i]
            < self.units.len()
        &&& strictly_increasing(self.selected_log_lines@)
    }

    /// The fuzzy score of a unit against the search query.
    pub open spec fn spec_search_score(&self, unit: UnitInfo) -> Option<i64> {
        fuzzy_score(search_target(unit), self.search_query@)
    }

    /// A unit passes the search: empty query, or a fuzzy match.
    pub open spec fn matches_search(&self, unit: UnitInfo) -> bool {
        self.search_query@.len() == 0 || self.spec_search_score(unit) is Some
    }

    /// A state with no units, nothing selected and the unit list shown.
    pub fn blank() -> (app: App)
        ensures
            app.wf(),
            app.units@.len() == 0,
            app.filtered_units@.len() == 0,
            app.list_selected is None,
            app.view_mode == ViewMode::UnitList,
            app.is_loading,
            app.search_query@.len() == 0,
            !app.is_searching,
            app.active_state_filter is None,
            app.enablement_state_filter is None,
            app.load_state_filter is None,
            app.scope_filter is None,
            app.open_filter_menu is None,
            app.unit_logs@.len() == 0,
            app.log_selected is None,
            app.unit_file_content@.len() == 0,
            app.unit_file_path@.len() == 0,
            app.file_scroll == 0,
            app.pending_action is None,
            app.pending_edit_review is None,
            app.auth_prompt is None,
            app.active_privileged_action is None,
            app.selected_log_lines@.len() == 0,
            app.selected_log_line_marks@.len() == 0,
            app.pending_nav_prefix is None,
            !app.visual_select,
            !app.visual_line_select,
            !app.log_search_mode,
            !app.file_search_mode,
            app.log_search_query@.len() == 0,
            app.file_search_query@.len() == 0,
            app.file_search_match is None,
            app.search_cursor == 0,
            app.log_search_cursor == 0,
            app.file_search_cursor == 0,
            app.last_area_height == 0,
            app.selected_unit_key@ == (Seq::<char>::empty(), Seq::<char>::empty(), Seq::<char>::empty()),
    {
        App {
            units: Vec::new(),
            filtered_units: Vec::new(),
            list_selected: None,
            selected_unit_key: UnitSelectionKey::default(),
            search_query: String::new(),
            is_searching: false,
            active_state_filter: None,
            enablement_state_filter: None,
            load_state_filter: None,
            scope_filter: None,
            open_filter_menu: None,
            view_mode: ViewMode::UnitList,
            unit_logs: Vec::new(),
            log_selected: None,
            last_area_height: 0,
            unit_file_content: String::new(),
            unit_file_path: String::new(),
            file_scroll: 0,
            file_search_mode: false,
            file_search_query: String::new(),
            file_search_cursor: 0,
            file_search_match: None,
            pending_action: None,
            pending_edit_review: None,
            auth_prompt: None,
            active_privileged_action: None,
            is_loading: true,
            visual_select: false,
            visual_line_select: false,
            search_cursor: 0,
            log_search_mode: false,
            log_search_query: String::new(),
            log_search_cursor: 0,
            selected_log_lines: Vec::new(),
            selected_log_line_marks: Vec::new(),
            pending_nav_prefix: None,
        }
    }

    /// The fuzzy score of `unit` against the search query.
    pub fn search_score(&self, unit: &UnitInfo) -> (r: Option<i64>)
        ensures
            r == self.spec_search_score(*unit),
    {
        let mut target = unit.name.clone();
        push_str(&mut target, " ");
        push_str(&mut target, unit.description.as_str());
        fuzzy_match(target.as_str(), self.search_query.as_str())
    }

    /// Whether `unit` passes the search query.
    pub fn unit_matches_search(&self, unit: &UnitInfo) -> (r: bool)
        ensures
            r == self.matches_search(*unit),
    {
        self.search_query.as_str().is_empty() || self.search_score(unit).is_some()
    }

    /// Whether a filter set to `selected` lets `actual` through.
    pub fn matches_filter_value(selected: Option<&str>, actual: &str) -> (r: bool)
        ensures
            r == match selected {
                Some(expected) => expected@ == actual@,
                None => true,
            },
    {
        match selected {
            Some(expected) => crate::text::str_eq(expected, actual),
            None => true,
        }
    }
}

/// The text of a new drop-in override for `unit_name`, whose fragment is at `source_path`.
pub open spec fn override_template(unit_name: Seq<char>, source_path: Seq<char>) -> Seq<char> {
    "# Drop-in override for "@ + unit_name + "\n# Add only the sections and keys you want to override.\n# Source fragment: "@
        + source_path + "\n# Example:\n# [Service]\n# Environment=KEY=value\n"@
}

/// Builds the commented template a new drop-in override starts from.
pub fn build_override_template(unit_name: &str, source_path: &str) -> (r: String)
    ensures
        r@ == override_template(unit_name@, source_path@),
{
    let mut r = String::from_str("# Drop-in override for ");
    push_str(&mut r, unit_name);
    push_str(&mut r, "\n# Add only the sections and keys you want to override.\n# Source fragment: ");
    push_str(&mut r, source_path);
    push_str(&mut r, "\n# Example:\n# [Service]\n# Environment=KEY=value\n");
    r
}

/// The unit file view on its own: the file, its path, how far it is
/// scrolled and the search match shown.
pub struct FileViewState {
    pub content: String,
    pub path: String,
    pub scroll: u16,
    pub search_match: Option<usize>,
}

impl Default for FileViewState {
    fn default() -> (r: Self)
        ensures
            r.content@.len() == 0,
            r.path@.len() == 0,
            r.scroll == 0,
            r.search_match is None,
    {
        FileViewState { content: String::new(), path: String::new(), scroll: 0, search_match: None }
    }
}

/// The scroll position after moving `delta` lines: kept between the first
/// line and the last (the line count taken as an `i32`), then stored as a `u16`.
pub open spec fn scrolled(scroll: u16, delta: i32, content: Seq<char>) -> u16 {
    let total = (text_lines(content).len() as i32) as int;
    let next = scroll as int + delta as int;
    let top = if total <= 0 { 0 } else { total - 1 };
    let c = if next < 0 { 0 } else if next > top { top } else { next };
    c as u16
}

impl FileViewState {
    /// Scrolls by `delta` lines, staying within the file.
    pub fn move_scroll(&mut self, delta: i32)
        requires
            old(self).scroll as int + delta as int <= i32::MAX,
        ensures
            final(self).scroll == scrolled(old(self).scroll, delta, old(self).content@),
            final(self).content == old(self).content,
            final(self).path == old(self).path,
            final(self).search_match == old(self).search_match,
    {
        let all = lines(self.content.as_str());
        let count = all.len();
        assert(crate::text::views(all@).len() == count);
        let total: i32 = count as i32;
        let next: i32 = self.scroll as i32 + delta;
        let top: i32 = if total <= 0 { 0 } else { total - 1 };
        let c: i32 = if next < 0 { 0 } else if next > top { top } else { next };
        self.scroll = c as u16;
    }
}

} // verus!
