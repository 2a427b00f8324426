//! The unit list filters: by active, enablement and load state and by scope,
//! together with the fuzzy search.
use vstd::prelude::*;
use crate::models::UnitInfo;
use crate::selection::restored_row;
use crate::state::{App, FilterMenu, FilterMenuOption, UnitSelectionKey, filter_accepts, unit_key};
use crate::text::{
    ascii_lower, chars_of, is_ascii_alnum, is_ascii_alphanumeric, lemma_seq_lt_irreflexive, lemma_seq_lt_total,
    lemma_push_to_set, lemma_seq_lt_transitive, lemma_views_push, push_char, seq_lt, str_eq, str_lt, to_ascii_lowercase, views,
};

verus! {

pub open spec fn menu_title(menu: FilterMenu) -> Seq<char> {
    match menu {
        FilterMenu::Active => "Active State"@,
        FilterMenu::Enablement => "Enablement State"@,
        FilterMenu::Load => "Load State"@,
        FilterMenu::Scope => "Scope"@,
    }
}

pub open spec fn menu_segment_title(menu: FilterMenu) -> Seq<char> {
    match menu {
        FilterMenu::Active => " Active (a) "@,
        FilterMenu::Enablement => " Enablement (n) "@,
        FilterMenu::Load => " Load (o) "@,
        FilterMenu::Scope => " Scope (p) "@,
    }
}

/// The values a menu lists first, in this order, whether or not a unit has them.
pub open spec fn preferred_labels(menu: FilterMenu) -> Seq<Seq<char>> {
    match menu {
        FilterMenu::Active => seq![
            "active"@,
            "inactive"@,
            "failed"@,
            "activating"@,
            "deactivating"@,
            "maintenance"@,
            "reloading"@,
        ],
        FilterMenu::Enablement => seq![
            "enabled"@,
            "enabled-runtime"@,
            "linked"@,
            "linked-runtime"@,
            "masked"@,
            "masked-runtime"@,
            "static"@,
            "disabled"@,
            "invalid"@,
            "indirect"@,
            "alias"@,
            "generated"@,
            "transient"@,
            "unknown"@,
        ],
        FilterMenu::Load => seq!["loaded"@, "not-found"@, "bad-setting"@, "error"@, "masked"@],
        FilterMenu::Scope => seq!["global"@, "session"@],
    }
}

/// The hotkeys a menu value asks for first.
pub open spec fn preferred_keys(menu: FilterMenu, value: Seq<char>) -> Seq<char> {
    match menu {
        FilterMenu::Active => if value == "active"@ {
            seq!['t', 'v', 'c']
        } else if value == "inactive"@ {
            seq!['i']
        } else if value == "failed"@ {
            seq!['f']
        } else if value == "activating"@ {
            seq!['g']
        } else if value == "deactivating"@ {
            seq!['d']
        } else if value == "maintenance"@ {
            seq!['m']
        } else if value == "reloading"@ {
            seq!['r']
        } else if value == "unknown"@ {
            seq!['u']
        } else {
            seq![]
        },
        FilterMenu::Enablement => if value == "enabled"@ {
            seq!['e']
        } else if value == "disabled"@ {
            seq!['d']
        } else if value == "static"@ {
            seq!['s']
        } else if value == "masked"@ {
            seq!['m']
        } else if value == "indirect"@ {
            seq!['i']
        } else if value == "alias"@ {
            seq!['l']
        } else if value == "generated"@ {
            seq!['g']
        } else if value == "linked"@ {
            seq!['k']
        } else if value == "enabled-runtime"@ {
            seq!['r']
        } else if value == "disabled-runtime"@ {
            seq!['u']
        } else if value == "masked-runtime"@ {
            seq!['x']
        } else if value == "linked-runtime"@ {
            seq!['y']
        } else if value == "transient"@ {
            seq!['t']
        } else if value == "unknown"@ {
            seq!['w']
        } else {
            seq![]
        },
        FilterMenu::Load => if value == "loaded"@ {
            seq!['l']
        } else if value == "not-found"@ {
            seq!['n']
        } else if value == "masked"@ {
            seq!['m']
        } else if value == "error"@ {
            seq!['e']
        } else if value == "bad-setting"@ {
            seq!['b']
        } else if value == "merged"@ {
            seq!['g']
        } else if value == "stub"@ {
            seq!['s']
        } else if value == "unknown"@ {
            seq!['u']
        } else {
            seq![]
        },
        FilterMenu::Scope => if value == "global"@ {
            seq!['g']
        } else if value == "session"@ {
            seq!['s']
        } else {
            seq![]
        },
    }
}

/// The field of a unit that a menu filters on.
pub open spec fn unit_field(menu: FilterMenu, unit: UnitInfo) -> Seq<char> {
    match menu {
        FilterMenu::Active => unit.active_state@,
        FilterMenu::Enablement => unit.enablement_state@,
        FilterMenu::Load => unit.load_state@,
        FilterMenu::Scope => unit.scope@,
    }
}

/// The value a menu is set to.
pub open spec fn menu_filter(app: App, menu: FilterMenu) -> Option<String> {
    match menu {
        FilterMenu::Active => app.active_state_filter,
        FilterMenu::Enablement => app.enablement_state_filter,
        FilterMenu::Load => app.load_state_filter,
        FilterMenu::Scope => app.scope_filter,
    }
}

/// A unit passes all four state filters.
pub open spec fn passes_state_filters(app: App, unit: UnitInfo) -> bool {
    &&& filter_accepts(app.active_state_filter, unit.active_state@)
    &&& filter_accepts(app.enablement_state_filter, unit.enablement_state@)
    &&& filter_accepts(app.load_state_filter, unit.load_state@)
    &&& filter_accepts(app.scope_filter, unit.scope@)
}

/// A unit passes the search and every filter but the one of `menu`: the units
/// that a menu's counts are taken over.
pub open spec fn passes_other_filters(app: App, unit: UnitInfo, menu: FilterMenu) -> bool {
    &&& app.matches_search(unit)
    &&& (menu == FilterMenu::Active || filter_accepts(app.active_state_filter, unit.active_state@))
    &&& (menu == FilterMenu::Enablement || filter_accepts(app.enablement_state_filter, unit.enablement_state@))
    &&& (menu == FilterMenu::Load || filter_accepts(app.load_state_filter, unit.load_state@))
    &&& (menu == FilterMenu::Scope || filter_accepts(app.scope_filter, unit.scope@))
}

/// A name with its ASCII capitals made small: the key by which the unit list
/// is sorted.
pub open spec fn folded_name(name: Seq<char>) -> Seq<char> {
    name.map_values(|c: char| ascii_lower(c))
}

/// Unit `i` is listed before unit `j` when there is no query: by name with
/// case ignored, and between names that differ only in case the earlier unit.
pub open spec fn lists_before(app: App, i: usize, j: usize) -> bool {
    let ki = folded_name(app.units@[i as int].name@);
    let kj = folded_name(app.units@[j as int].name@);
    seq_lt(ki, kj) || (ki == kj && i < j)
}

/// `r` is the unit list with no query: exactly the units that pass the state
/// filters, sorted by name with case ignored.
pub open spec fn is_sorted_listing(app: App, r: Seq<usize>) -> bool {
    &&& forall|k: int| 0 <= k < r.len() ==> #[trigger] r[k] < app.units.len()
    &&& forall|i: usize| i < app.units.len() ==> (r.contains(i) <==> passes_state_filters(app, app.units@[i as int]))
    &&& forall|a: int, b: int| 0 <= a < b < r.len() ==> lists_before(app, #[trigger] r[a], #[trigger] r[b])
}

/// Unit `i` is listed before unit `j` in search results: higher score first,
/// and between equal scores the earlier unit.
pub open spec fn ranks_before(app: App, i: usize, j: usize) -> bool {
    let si = app.spec_search_score(app.units@[i as int]).unwrap();
    let sj = app.spec_search_score(app.units@[j as int]).unwrap();
    si > sj || (si == sj && i < j)
}

/// `r` is the result of searching: exactly the units that pass the state
/// filters and match the query, ranked.
pub open spec fn is_ranked_search_result(app: App, r: Seq<usize>) -> bool {
    &&& forall|k: int| 0 <= k < r.len() ==> #[trigger] r[k] < app.units.len()
    &&& forall|i: usize| i < app.units.len() ==> (r.contains(i) <==> (passes_state_filters(app, app.units@[i as int])
        && app.spec_search_score(app.units@[i as int]) is Some))
    &&& forall|a: int, b: int| 0 <= a < b < r.len() ==> ranks_before(app, #[trigger] r[a], #[trigger] r[b])
}

/// The units shown: with no query, those that pass the state filters sorted
/// by name; with a query, the ranked search result.
pub open spec fn is_filter_result(app: App, r: Seq<usize>) -> bool {
    if app.search_query@.len() == 0 {
        is_sorted_listing(app, r)
    } else {
        is_ranked_search_result(app, r)
    }
}

/// `new` is `old` with the shown units recomputed and the highlighted unit
/// kept highlighted when it is still shown.
pub open spec fn refilters(old: App, new: App) -> bool {
    refilters_keeping(old, selected_key(old), new)
}

/// `new` is `old` with the shown units recomputed and the unit with key
/// `key` highlighted when it is shown.
pub open spec fn refilters_keeping(old: App, key: Option<(Seq<char>, Seq<char>, Seq<char>)>, new: App) -> bool {
    &&& new.wf()
    &&& is_filter_result(old, new.filtered_units@)
    &&& new.list_selected == restored_row(old.units@, new.filtered_units@, key)
    &&& new.selected_unit_key@ == new.key_for_row(new.list_selected)
    &&& new == (App {
        filtered_units: new.filtered_units,
        list_selected: new.list_selected,
        selected_unit_key: new.selected_unit_key,
        ..old
    })
}

/// `name` with its ASCII capitals made small.
pub fn folded(name: &str) -> (r: String)
    ensures
        r@ == folded_name(name@),
{
    let chars = chars_of(name);
    let mut r = String::new();
    let mut k: usize = 0;
    while k < chars.len()
        invariant
            k <= chars.len(),
            chars@ == name@,
            r@ == folded_name(name@.take(k as int)),
        decreases chars.len() - k,
    {
        proof {
            assert(name@.take(k + 1) == name@.take(k as int).push(name@[k as int]));
        }
        push_char(&mut r, to_ascii_lowercase(chars[k]));
        k += 1;
    }
    proof {
        assert(name@.take(chars.len() as int) == name@);
    }
    r
}

impl FilterMenu {
    /// The menu's heading.
    pub fn title(self) -> (r: &'static str)
        ensures
            r@ == menu_title(self),
    {
        match self {
            FilterMenu::Active => "Active State",
            FilterMenu::Enablement => "Enablement State",
            FilterMenu::Load => "Load State",
            FilterMenu::Scope => "Scope",
        }
    }

    /// The title of the menu's header segment, with its key.
    pub fn segment_title(self) -> (r: &'static str)
        ensures
            r@ == menu_segment_title(self),
    {
        match self {
            FilterMenu::Active => " Active (a) ",
            FilterMenu::Enablement => " Enablement (n) ",
            FilterMenu::Load => " Load (o) ",
            FilterMenu::Scope => " Scope (p) ",
        }
    }

    /// The field of `unit` this menu filters on.
    pub fn unit_value(self, unit: &UnitInfo) -> (r: &str)
        ensures
            r@ == unit_field(self, *unit),
    {
        match self {
            FilterMenu::Active => unit.active_state.as_str(),
            FilterMenu::Enablement => unit.enablement_state.as_str(),
            FilterMenu::Load => unit.load_state.as_str(),
            FilterMenu::Scope => unit.scope.as_str(),
        }
    }

    /// The value this menu is set to in `app`.
    pub fn selected_value(self, app: &App) -> (r: Option<&str>)
        ensures
            match menu_filter(*app, self) {
                Some(v) => r matches Some(s) && s@ == v@,
                None => r is None,
            },
    {
        let f = match self {
            FilterMenu::Active => &app.active_state_filter,
            FilterMenu::Enablement => &app.enablement_state_filter,
            FilterMenu::Load => &app.load_state_filter,
            FilterMenu::Scope => &app.scope_filter,
        };
        match f {
            Some(s) => Some(s.as_str()),
            None => None,
        }
    }

    /// Sets this menu's filter in `app`.
    pub fn set_selected_value(self, app: &mut App, value: Option<String>)
        ensures
            *final(app) == match self {
                FilterMenu::Active => App { active_state_filter: value, ..*old(app) },
                FilterMenu::Enablement => App { enablement_state_filter: value, ..*old(app) },
                FilterMenu::Load => App { load_state_filter: value, ..*old(app) },
                FilterMenu::Scope => App { scope_filter: value, ..*old(app) },
            },
    {
        match self {
            FilterMenu::Active => app.active_state_filter = value,
            FilterMenu::Enablement => app.enablement_state_filter = value,
            FilterMenu::Load => app.load_state_filter = value,
            FilterMenu::Scope => app.scope_filter = value,
        }
    }

    /// The values this menu lists first, in order.
    pub fn preferred_order(self) -> (r: &'static [&'static str])
        ensures
            r@.map_values(|s: &str| s@) == preferred_labels(self),
    {
        let r: &'static [&'static str] = match self {
            FilterMenu::Active => &[
                "active",
                "inactive",
                "failed",
                "activating",
                "deactivating",
                "maintenance",
                "reloading",
            ],
            FilterMenu::Enablement => &[
                "enabled",
                "enabled-runtime",
                "linked",
                "linked-runtime",
                "masked",
                "masked-runtime",
                "static",
                "disabled",
                "invalid",
                "indirect",
                "alias",
                "generated",
                "transient",
                "unknown",
            ],
            FilterMenu::Load => &["loaded", "not-found", "bad-setting", "error", "masked"],
            FilterMenu::Scope => &["global", "session"],
        };
        assert(r@.map_values(|s: &str| s@) =~= preferred_labels(self));
        r
    }

    /// The hotkeys the menu entry `value` asks for first.
    pub fn preferred_hotkeys(self, value: &str) -> (r: Vec<char>)
        ensures
            r@ == preferred_keys(self, value@),
    {
        let r = match self {
            FilterMenu::Active => {
            if str_eq(value, "active") {
                vec!['t', 'v', 'c']
            } else if str_eq(value, "inactive") {
                vec!['i']
            } else if str_eq(value, "failed") {
                vec!['f']
            } else if str_eq(value, "activating") {
                vec!['g']
            } else if str_eq(value, "deactivating") {
                vec!['d']
            } else if str_eq(value, "maintenance") {
                vec!['m']
            } else if str_eq(value, "reloading") {
                vec!['r']
            } else if str_eq(value, "unknown") {
                vec!['u']
            } else {
                Vec::new()
            }
            },
            FilterMenu::Enablement => {
            if str_eq(value, "enabled") {
                vec!['e']
            } else if str_eq(value, "disabled") {
                vec!['d']
            } else if str_eq(value, "static") {
                vec!['s']
            } else if str_eq(value, "masked") {
                vec!['m']
            } else if str_eq(value, "indirect") {
                vec!['i']
            } else if str_eq(value, "alias") {
                vec!['l']
            } else if str_eq(value, "generated") {
                vec!['g']
            } else if str_eq(value, "linked") {
                vec!['k']
            } else if str_eq(value, "enabled-runtime") {
                vec!['r']
            } else if str_eq(value, "disabled-runtime") {
                vec!['u']
            } else if str_eq(value, "masked-runtime") {
                vec!['x']
            } else if str_eq(value, "linked-runtime") {
                vec!['y']
            } else if str_eq(value, "transient") {
                vec!['t']
            } else if str_eq(value, "unknown") {
                vec!['w']
            } else {
                Vec::new()
            }
            },
            FilterMenu::Load => {
            if str_eq(value, "loaded") {
                vec!['l']
            } else if str_eq(value, "not-found") {
                vec!['n']
            } else if str_eq(value, "masked") {
                vec!['m']
            } else if str_eq(value, "error") {
                vec!['e']
            } else if str_eq(value, "bad-setting") {
                vec!['b']
            } else if str_eq(value, "merged") {
                vec!['g']
            } else if str_eq(value, "stub") {
                vec!['s']
            } else if str_eq(value, "unknown") {
                vec!['u']
            } else {
                Vec::new()
            }
            },
            FilterMenu::Scope => {
            if str_eq(value, "global") {
                vec!['g']
            } else if str_eq(value, "session") {
                vec!['s']
            } else {
                Vec::new()
            }
            },
        };
        assert(r@ =~= preferred_keys(self, value@));
        r
    }
}


/// The key of the highlighted unit, if any.
pub open spec fn selected_key(app: App) -> Option<(Seq<char>, Seq<char>, Seq<char>)> {
    match app.selected_unit() {
        Some(u) => Some(unit_key(u)),
        None => None,
    }
}

impl App {
    /// Whether `unit` passes all four state filters.
    pub fn unit_matches_state_filters(&self, unit: &UnitInfo) -> (r: bool)
        ensures
            r == passes_state_filters(*self, *unit),
    {
        App::matches_filter_value(FilterMenu::Active.selected_value(self), unit.active_state.as_str())
            && App::matches_filter_value(FilterMenu::Enablement.selected_value(self), unit.enablement_state.as_str())
            && App::matches_filter_value(FilterMenu::Load.selected_value(self), unit.load_state.as_str())
            && App::matches_filter_value(FilterMenu::Scope.selected_value(self), unit.scope.as_str())
    }

    /// Whether `unit` passes the search and every filter but the one of `menu`.
    pub fn unit_matches_scope_for_menu(&self, unit: &UnitInfo, menu: FilterMenu) -> (r: bool)
        ensures
            r == passes_other_filters(*self, *unit, menu),
    {
        self.unit_matches_search(unit) && (menu == FilterMenu::Active || App::matches_filter_value(
            FilterMenu::Active.selected_value(self),
            unit.active_state.as_str(),
        )) && (menu == FilterMenu::Enablement || App::matches_filter_value(
            FilterMenu::Enablement.selected_value(self),
            unit.enablement_state.as_str(),
        )) && (menu == FilterMenu::Load || App::matches_filter_value(
            FilterMenu::Load.selected_value(self),
            unit.load_state.as_str(),
        )) && (menu == FilterMenu::Scope || App::matches_filter_value(
            FilterMenu::Scope.selected_value(self),
            unit.scope.as_str(),
        ))
    }

    /// What a menu's header shows: its value, or `all`.
    pub fn filter_summary(&self, menu: FilterMenu) -> (r: &str)
        ensures
            r@ == match menu_filter(*self, menu) {
                Some(v) => v@,
                None => "all"@,
            },
    {
        match menu.selected_value(self) {
            Some(v) => v,
            None => "all",
        }
    }

    /// The units that pass the state filters, sorted by name with case ignored.
    fn sorted_state_matches(&self) -> (r: Vec<usize>)
        ensures
            is_sorted_listing(*self, r@),
    {
        let n = self.units.len();
        let mut order: Vec<usize> = Vec::new();
        let mut keys: Vec<String> = Vec::new();
        let mut i: usize = 0;
        while i < n
            invariant
                n == self.units.len(),
                i <= n,
                order.len() == keys.len(),
                forall|k: int| 0 <= k < order.len() ==> #[trigger] order@[k] < i,
                forall|k: int| 0 <= k < order.len() ==> #[trigger] keys@[k]@ == folded_name(
                    self.units@[order@[k] as int].name@,
                ),
                forall|j: usize| j < i ==> (order@.contains(j) <==> passes_state_filters(*self, self.units@[j as int])),
                forall|a: int, b: int| 0 <= a < b < order.len() ==> lists_before(*self, #[trigger] order@[a], #[trigger] order@[b]),
            decreases n - i,
        {
            if self.unit_matches_state_filters(&self.units[i]) {
                let key = folded(self.units[i].name.as_str());
                let mut p: usize = 0;
                while p < keys.len() && !str_lt(key.as_str(), keys[p].as_str())
                    invariant
                        p <= keys.len(),
                        forall|k: int| 0 <= k < p ==> !seq_lt(key@, #[trigger] keys@[k]@),
                    decreases keys.len() - p,
                {
                    p += 1;
                }
                assert(p == keys.len() || seq_lt(key@, keys@[p as int]@));
                let ghost old_order = order@;
                let ghost old_keys = keys@;
                order.insert(p, i);
                keys.insert(p, key);
                proof {
                    assert(order@ == old_order.insert(p as int, i));
                    assert(keys@ == old_keys.insert(p as int, key));
                    assert forall|k: int| 0 <= k < order.len() implies #[trigger] order@[k] < i + 1 by {
                        if k < p {
                            assert(order@[k] == old_order[k]);
                        } else if k > p {
                            assert(order@[k] == old_order[k - 1]);
                        }
                    }
                    assert forall|k: int| 0 <= k < order.len() implies #[trigger] keys@[k]@ == folded_name(
                        self.units@[order@[k] as int].name@,
                    ) by {
                        if k < p {
                            assert(order@[k] == old_order[k] && keys@[k] == old_keys[k]);
                        } else if k > p {
                            assert(order@[k] == old_order[k - 1] && keys@[k] == old_keys[k - 1]);
                        }
                    }
                    assert forall|j: usize| j < i + 1 implies (order@.contains(j) <==> passes_state_filters(
                        *self,
                        self.units@[j as int],
                    )) by {
                        if j < i {
                            if old_order.contains(j) {
                                let k = choose|k: int| 0 <= k < old_order.len() && old_order[k] == j;
                                if k < p {
                                    assert(order@[k] == j);
                                } else {
                                    assert(order@[k + 1] == j);
                                }
                            }
                            if order@.contains(j) {
                                let k = choose|k: int| 0 <= k < order@.len() && order@[k] == j;
                                if k < p {
                                    assert(old_order[k] == j);
                                } else if k > p {
                                    assert(old_order[k - 1] == j);
                                }
                            }
                        } else {
                            assert(order@[p as int] == i);
                        }
                    }
                    assert forall|a: int, b: int| 0 <= a < b < order.len() implies lists_before(
                        *self,
                        #[trigger] order@[a],
                        #[trigger] order@[b],
                    ) by {
                        if b < p {
                            assert(order@[a] == old_order[a] && order@[b] == old_order[b]);
                        } else if b == p {
                            assert(order@[a] == old_order[a] && keys@[a] == old_keys[a]);
                            assert(!seq_lt(key@, old_keys[a]@));
                            if old_keys[a]@ != key@ {
                                lemma_seq_lt_total(old_keys[a]@, key@);
                            }
                        } else if a == p {
                            assert(order@[b] == old_order[b - 1] && keys@[b] == old_keys[b - 1]);
                            assert(seq_lt(key@, old_keys[p as int]@));
                            if b - 1 > p {
                                assert(lists_before(*self, old_order[p as int], old_order[b - 1]));
                                if old_keys[p as int]@ != old_keys[b - 1]@ {
                                    lemma_seq_lt_transitive(key@, old_keys[p as int]@, old_keys[b - 1]@);
                                }
                            }
                        } else if a < p {
                            assert(order@[a] == old_order[a] && order@[b] == old_order[b - 1]);
                        } else {
                            assert(order@[a] == old_order[a - 1] && order@[b] == old_order[b - 1]);
                        }
                    }
                }
            }
            i += 1;
        }
        order
    }

    /// The units that pass the state filters and match the query, best score first.
    fn ranked_search_results(&self) -> (r: Vec<usize>)
        ensures
            is_ranked_search_result(*self, r@),
    {
        let n = self.units.len();
        let mut order: Vec<usize> = Vec::new();
        let mut scores: Vec<i64> = Vec::new();
        let mut i: usize = 0;
        while i < n
            invariant
                n == self.units.len(),
                i <= n,
                order.len() == scores.len(),
                forall|k: int| 0 <= k < order.len() ==> #[trigger] order@[k] < i,
                forall|k: int| 0 <= k < order.len() ==> self.spec_search_score(self.units@[#[trigger] order@[k] as int])
                    == Some(scores@[k]),
                forall|j: usize| j < i ==> (order@.contains(j) <==> (passes_state_filters(*self, self.units@[j as int])
                    && self.spec_search_score(self.units@[j as int]) is Some)),
                forall|a: int, b: int| 0 <= a < b < order.len() ==> ranks_before(*self, #[trigger] order@[a], #[trigger] order@[b]),
            decreases n - i,
        {
            let unit = &self.units[i];
            if self.unit_matches_state_filters(unit) {
                match self.search_score(unit) {
                    Some(score) => {
                        let mut p: usize = 0;
                        while p < scores.len() && scores[p] >= score
                            invariant
                                p <= scores.len(),
                                forall|k: int| 0 <= k < p ==> #[trigger] scores@[k] >= score,
                            decreases scores.len() - p,
                        {
                            p += 1;
                        }
                        assert(p == scores.len() || scores@[p as int] < score);
                        let ghost old_order = order@;
                        let ghost old_scores = scores@;
                        order.insert(p, i);
                        scores.insert(p, score);
                        proof {
                            assert(order@ == old_order.insert(p as int, i));
                            assert forall|k: int| 0 <= k < order.len() implies #[trigger] order@[k] < i + 1 by {
                                if k < p {
                                    assert(order@[k] == old_order[k]);
                                } else if k > p {
                                    assert(order@[k] == old_order[k - 1]);
                                }
                            }
                            assert forall|k: int| 0 <= k < order.len() implies self.spec_search_score(
                                self.units@[#[trigger] order@[k] as int],
                            ) == Some(scores@[k]) by {
                                if k < p {
                                    assert(order@[k] == old_order[k] && scores@[k] == old_scores[k]);
                                } else if k > p {
                                    assert(order@[k] == old_order[k - 1] && scores@[k] == old_scores[k - 1]);
                                }
                            }
                            assert forall|j: usize| j < i + 1 implies (order@.contains(j) <==> (passes_state_filters(
                                *self,
                                self.units@[j as int],
                            ) && self.spec_search_score(self.units@[j as int]) is Some)) by {
                                if j < i {
                                    if old_order.contains(j) {
                                        let k = choose|k: int| 0 <= k < old_order.len() && old_order[k] == j;
                                        if k < p {
                                            assert(order@[k] == j);
                                        } else {
                                            assert(order@[k + 1] == j);
                                        }
                                    }
                                    if order@.contains(j) {
                                        let k = choose|k: int| 0 <= k < order@.len() && order@[k] == j;
                                        if k < p {
                                            assert(old_order[k] == j);
                                        } else if k > p {
                                            assert(old_order[k - 1] == j);
                                        }
                                    }
                                } else {
                                    assert(order@[p as int] == i);
                                }
                            }
                            assert forall|a: int, b: int| 0 <= a < b < order.len() implies ranks_before(
                                *self,
                                #[trigger] order@[a],
                                #[trigger] order@[b],
                            ) by {
                                if b < p {
                                    assert(order@[a] == old_order[a] && order@[b] == old_order[b]);
                                } else if b == p {
                                    assert(order@[a] == old_order[a] && scores@[a] == old_scores[a]);
                                    assert(old_scores[a] >= score);
                                } else if a == p {
                                    assert(order@[b] == old_order[b - 1] && scores@[b] == old_scores[b - 1]);
                                    if b - 1 > p {
                                        assert(ranks_before(*self, old_order[p as int], old_order[b - 1]));
                                        assert(self.spec_search_score(self.units@[old_order[p as int] as int]) == Some(old_scores[p as int]));
                                        assert(self.spec_search_score(self.units@[old_order[b - 1] as int]) == Some(old_scores[b - 1]));
                                    }
                                    assert(old_scores[b - 1] < score);
                                } else if a < p {
                                    assert(order@[a] == old_order[a] && order@[b] == old_order[b - 1]);
                                } else {
                                    assert(order@[a] == old_order[a - 1] && order@[b] == old_order[b - 1]);
                                }
                            }
                        }
                    },
                    None => {},
                }
            }
            i += 1;
        }
        order
    }

    /// Recomputes the shown units from the units, the state filters and the
    /// search, and keeps the highlighted unit highlighted when it is still shown.
    pub fn update_filter(&mut self)
        requires
            old(self).wf(),
        ensures
            refilters(*old(self), *final(self)),
    {
        let selected: Option<UnitSelectionKey> = match self.get_selected_unit() {
            Some(u) => Some(App::selected_unit_key_for(u)),
            None => None,
        };
        match &selected {
            Some(k) => self.refilter(Some(k)),
            None => self.refilter(None),
        }
    }

    /// Recomputes the shown units and highlights the unit with key `selected`
    /// when it is shown.
    pub fn refilter(&mut self, selected: Option<&UnitSelectionKey>)
        requires
            crate::state::strictly_increasing(old(self).selected_log_lines@),
        ensures
            refilters_keeping(*old(self), match selected {
                Some(k) => Some(k@),
                None => None,
            }, *final(self)),
    {
        let filtered = if self.search_query.as_str().is_empty() {
            self.sorted_state_matches()
        } else {
            self.ranked_search_results()
        };
        self.filtered_units = filtered;
        self.restore_selection(selected);
    }
}



/// The ASCII letters and digits of `s`, in lower case.
pub open spec fn alnum_lower(s: Seq<char>) -> Seq<char>
    decreases s.len(),
{
    if s.len() == 0 {
        Seq::empty()
    } else {
        let prev = alnum_lower(s.drop_last());
        if is_ascii_alnum(s.last()) {
            prev.push(ascii_lower(s.last()))
        } else {
            prev
        }
    }
}

/// The digits `0` to `9`.
pub open spec fn digit_keys() -> Seq<char> {
    seq!['0', '1', '2', '3', '4', '5', '6', '7', '8', '9']
}

/// The keys a menu entry may get, most wanted first: its preferred keys, its
/// own letters and digits, then any digit.
pub open spec fn hotkey_candidates(menu: FilterMenu, label: Seq<char>) -> Seq<char> {
    preferred_keys(menu, label) + alnum_lower(label) + digit_keys()
}

/// The first candidate, in lower case, that is not taken yet.
pub open spec fn first_free(cands: Seq<char>, used: Set<char>) -> Option<char>
    decreases cands.len(),
{
    if cands.len() == 0 {
        None
    } else if !used.contains(ascii_lower(cands[0])) {
        Some(ascii_lower(cands[0]))
    } else {
        first_free(cands.drop_first(), used)
    }
}

/// The key an entry gets when `used` are taken: its first free candidate, else `?`.
pub open spec fn key_given(menu: FilterMenu, label: Seq<char>, used: Set<char>) -> char {
    match first_free(hotkey_candidates(menu, label), used) {
        Some(c) => c,
        None => '?',
    }
}

/// The keys taken once the entries `labels` have their keys; `a` is taken by "all".
pub open spec fn keys_taken(menu: FilterMenu, labels: Seq<Seq<char>>) -> Set<char>
    decreases labels.len(),
{
    if labels.len() == 0 {
        set!['a']
    } else {
        let prev = keys_taken(menu, labels.drop_last());
        match first_free(hotkey_candidates(menu, labels.last()), prev) {
            Some(c) => prev.insert(c),
            None => prev,
        }
    }
}

/// The key of entry `k` when the entries are `labels`, in order.
pub open spec fn hotkey_of_entry(menu: FilterMenu, labels: Seq<Seq<char>>, k: int) -> char {
    key_given(menu, labels[k], keys_taken(menu, labels.take(k)))
}

/// `r` lists, in sorted order and once each, the non-empty values of the
/// menu's field among the units that are not preferred values.
pub open spec fn is_extra_labels(app: App, menu: FilterMenu, r: Seq<Seq<char>>) -> bool {
    &&& forall|a: int, b: int| 0 <= a < b < r.len() ==> seq_lt(#[trigger] r[a], #[trigger] r[b])
    &&& forall|x: Seq<char>| r.contains(x) <==> (x.len() > 0 && !preferred_labels(menu).contains(x) && exists|j: int|
        0 <= j < app.units.len() && #[trigger] unit_field(menu, app.units@[j]) == x)
}

/// How many of `units` a menu entry counts: those that pass the other filters
/// and, for an entry with a value, have that value.
pub open spec fn entry_count(app: App, menu: FilterMenu, units: Seq<UnitInfo>, value: Option<Seq<char>>) -> nat
    decreases units.len(),
{
    if units.len() == 0 {
        0
    } else {
        let prev = entry_count(app, menu, units.drop_last(), value);
        let u = units.last();
        let counted = passes_other_filters(app, u, menu) && match value {
            Some(v) => unit_field(menu, u) == v,
            None => true,
        };
        if counted {
            prev + 1
        } else {
            prev
        }
    }
}

/// The entry labels of a menu's options, after "all".
pub open spec fn option_labels(r: Seq<FilterMenuOption>) -> Seq<Seq<char>> {
    r.skip(1).map_values(|o: FilterMenuOption| o.label@)
}

/// `r` is the option list of `menu`: "all" under `a`, then the preferred
/// values and the other values found, each with its key, whether it is the
/// value set, and how many units it would show.
pub open spec fn is_menu_options(app: App, menu: FilterMenu, r: Seq<FilterMenuOption>) -> bool {
    let labels = option_labels(r);
    let np = preferred_labels(menu).len() as int;
    &&& r.len() >= 1 + np
    &&& r[0].hotkey == 'a'
    &&& r[0].label@ == "all"@
    &&& r[0].value is None
    &&& r[0].selected == (menu_filter(app, menu) is None)
    &&& r[0].count == entry_count(app, menu, app.units@, None)
    &&& labels.take(np) == preferred_labels(menu)
    &&& is_extra_labels(app, menu, labels.skip(np))
    &&& forall|k: int| 0 <= k < labels.len() ==> {
        let o = #[trigger] r[k + 1];
        &&& o.hotkey == hotkey_of_entry(menu, labels, k)
        &&& o.value matches Some(v) && v@ == labels[k]
        &&& o.selected == (menu_filter(app, menu) matches Some(f) && f@ == labels[k])
        &&& o.count == entry_count(app, menu, app.units@, Some(labels[k]))
    }
}

/// Whether `c` is in `v`.
fn has_char(v: &Vec<char>, c: char) -> (r: bool)
    ensures
        r == v@.contains(c),
{
    let mut k: usize = 0;
    while k < v.len()
        invariant
            k <= v.len(),
            forall|j: int| 0 <= j < k ==> v@[j] != c,
        decreases v.len() - k,
    {
        if v[k] == c {
            return true;
        }
        k += 1;
    }
    false
}

/// Whether `s` is in `v`.
fn has_label(v: &Vec<String>, s: &str) -> (r: bool)
    ensures
        r == views(v@).contains(s@),
{
    let mut k: usize = 0;
    while k < v.len()
        invariant
            k <= v.len(),
            forall|j: int| 0 <= j < k ==> views(v@)[j] != s@,
        decreases v.len() - k,
    {
        if str_eq(v[k].as_str(), s) {
            assert(views(v@)[k as int] == s@);
            return true;
        }
        k += 1;
    }
    false
}

/// Whether `s` is one of the preferred values of `menu`.
fn is_preferred(menu: FilterMenu, s: &str) -> (r: bool)
    ensures
        r == preferred_labels(menu).contains(s@),
{
    let order = menu.preferred_order();
    let mut k: usize = 0;
    while k < order.len()
        invariant
            k <= order.len(),
            order@.map_values(|x: &str| x@) == preferred_labels(menu),
            forall|j: int| 0 <= j < k ==> preferred_labels(menu)[j] != s@,
        decreases order.len() - k,
    {
        if str_eq(order[k], s) {
            assert(preferred_labels(menu)[k as int] == s@);
            return true;
        }
        k += 1;
    }
    false
}

/// Gives a menu entry the first of its candidate keys not taken yet, and takes it.
fn assign_filter_hotkey(menu: FilterMenu, label: &str, used: &mut Vec<char>) -> (r: char)
    ensures
        r == key_given(menu, label@, old(used)@.to_set()),
        final(used)@.to_set() == match first_free(hotkey_candidates(menu, label@), old(used)@.to_set()) {
            Some(c) => old(used)@.to_set().insert(c),
            None => old(used)@.to_set(),
        },
{
    let mut cands = menu.preferred_hotkeys(label);
    let lv = chars_of(label);
    let ghost pref = cands@;
    let mut i: usize = 0;
    while i < lv.len()
        invariant
            i <= lv.len(),
            lv@ == label@,
            cands@ == pref + alnum_lower(lv@.take(i as int)),
        decreases lv.len() - i,
    {
        assert(lv@.take(i + 1).drop_last() == lv@.take(i as int));
        if is_ascii_alphanumeric(lv[i]) {
            cands.push(to_ascii_lowercase(lv[i]));
        }
        i += 1;
    }
    assert(lv@.take(lv.len() as int) == lv@);
    let digits = vec!['0', '1', '2', '3', '4', '5', '6', '7', '8', '9'];
    let mut d: usize = 0;
    while d < digits.len()
        invariant
            d <= digits.len(),
            digits@ == digit_keys(),
            cands@ == pref + alnum_lower(label@) + digit_keys().take(d as int),
        decreases digits.len() - d,
    {
        cands.push(digits[d]);
        assert(digit_keys().take(d + 1) == digit_keys().take(d as int).push(digit_keys()[d as int]));
        d += 1;
    }
    assert(digit_keys().take(10) == digit_keys());
    assert(cands@ == hotkey_candidates(menu, label@));
    let ghost start = used@.to_set();
    let mut k: usize = 0;
    assert(cands@.skip(0) == cands@);
    while k < cands.len()
        invariant
            k <= cands.len(),
            cands@ == hotkey_candidates(menu, label@),
            used@.to_set() == start,
            start == old(used)@.to_set(),
            first_free(cands@, start) == first_free(cands@.skip(k as int), start),
        decreases cands.len() - k,
    {
        assert(cands@.skip(k as int).drop_first() == cands@.skip(k + 1));
        assert(cands@.skip(k as int)[0] == cands@[k as int]);
        let normalized = to_ascii_lowercase(cands[k]);
        if !has_char(used, normalized) {
            assert(!start.contains(normalized));
            let ghost before = used@;
            used.push(normalized);
            proof {
                lemma_push_to_set(before, normalized);
            }
            return normalized;
        }
        assert(start.contains(normalized));
        k += 1;
    }
    '?'
}

impl App {
    /// The menu's field values other than the preferred ones, sorted, once each.
    fn extra_filter_values(&self, menu: FilterMenu) -> (r: Vec<String>)
        ensures
            is_extra_labels(*self, menu, views(r@)),
    {
        let mut r: Vec<String> = Vec::new();
        let mut i: usize = 0;
        while i < self.units.len()
            invariant
                i <= self.units.len(),
                forall|a: int, b: int| 0 <= a < b < r.len() ==> seq_lt(#[trigger] views(r@)[a], #[trigger] views(r@)[b]),
                forall|x: Seq<char>| #![trigger views(r@).contains(x)] views(r@).contains(x) <==> (x.len() > 0 && !preferred_labels(menu).contains(x)
                    && exists|j: int| 0 <= j < i && #[trigger] unit_field(menu, self.units@[j]) == x),
            decreases self.units.len() - i,
        {
            let v = menu.unit_value(&self.units[i]);
            let ghost before = views(r@);
            if !v.is_empty() && !is_preferred(menu, v) && !has_label(&r, v) {
                let mut p: usize = 0;
                while p < r.len() && !str_lt(v, r[p].as_str())
                    invariant
                        p <= r.len(),
                        views(r@) == before,
                        forall|k: int| 0 <= k < p ==> !seq_lt(v@, #[trigger] before[k]),
                    decreases r.len() - p,
                {
                    p += 1;
                }
                r.insert(p, String::from_str(v));
                proof {
                    let after = views(r@);
                    assert(after == before.insert(p as int, v@)) by {
                        assert(after =~= before.insert(p as int, v@));
                    }
                    assert forall|a: int, b: int| 0 <= a < b < after.len() implies seq_lt(#[trigger] after[a], #[trigger] after[b]) by {
                        if b < p {
                            assert(after[a] == before[a] && after[b] == before[b]);
                        } else if b == p {
                            assert(after[a] == before[a]);
                            assert(before[a] != v@);
                            lemma_seq_lt_total(before[a], v@);
                            if a < p - 1 {
                                assert(seq_lt(before[a], before[p - 1]));
                                assert(before[p - 1] != v@);
                                lemma_seq_lt_total(before[p - 1], v@);
                                lemma_seq_lt_transitive(before[a], before[p - 1], v@);
                            }
                        } else if a == p {
                            assert(after[b] == before[b - 1]);
                            assert(seq_lt(v@, before[p as int]));
                            if b - 1 > p {
                                assert(seq_lt(before[p as int], before[b - 1]));
                                lemma_seq_lt_transitive(v@, before[p as int], before[b - 1]);
                            }
                        } else if a < p {
                            assert(after[a] == before[a] && after[b] == before[b - 1]);
                        } else {
                            assert(after[a] == before[a - 1] && after[b] == before[b - 1]);
                        }
                    }
                    assert forall|x: Seq<char>| after.contains(x) <==> (x.len() > 0 && !preferred_labels(menu).contains(x)
                        && exists|j: int| 0 <= j < i + 1 && #[trigger] unit_field(menu, self.units@[j]) == x) by {
                        if after.contains(x) {
                            let k = choose|k: int| 0 <= k < after.len() && after[k] == x;
                            if k < p {
                                assert(before[k] == x);
                                assert(before.contains(x));
                                assert(views(r@).contains(x) == before.contains(x));
                                let j = choose|j: int| 0 <= j < i && #[trigger] unit_field(menu, self.units@[j]) == x;
                                assert(0 <= j < i + 1 && unit_field(menu, self.units@[j]) == x);
                            } else if k > p {
                                assert(before[k - 1] == x);
                                assert(before.contains(x));
                                let j = choose|j: int| 0 <= j < i && #[trigger] unit_field(menu, self.units@[j]) == x;
                                assert(0 <= j < i + 1 && unit_field(menu, self.units@[j]) == x);
                            } else {
                                assert(x == v@);
                                assert(unit_field(menu, self.units@[i as int]) == x);
                            }
                        }
                        if x.len() > 0 && !preferred_labels(menu).contains(x) && exists|j: int|
                            0 <= j < i + 1 && #[trigger] unit_field(menu, self.units@[j]) == x {
                            if x == v@ {
                                assert(after[p as int] == x);
                            } else {
                                let j = choose|j: int| 0 <= j < i + 1 && #[trigger] unit_field(menu, self.units@[j]) == x;
                                assert(j < i);
                                assert(before.contains(x));
                                let k = choose|k: int| 0 <= k < before.len() && before[k] == x;
                                if k < p {
                                    assert(after[k] == x);
                                } else {
                                    assert(after[k + 1] == x);
                                }
                            }
                        }
                    }
                }
            } else {
                proof {
                    assert forall|x: Seq<char>| views(r@).contains(x) <==> (x.len() > 0 && !preferred_labels(menu).contains(x)
                        && exists|j: int| 0 <= j < i + 1 && #[trigger] unit_field(menu, self.units@[j]) == x) by {
                        if views(r@).contains(x) {
                            let j = choose|j: int| 0 <= j < i && #[trigger] unit_field(menu, self.units@[j]) == x;
                            assert(0 <= j < i + 1 && unit_field(menu, self.units@[j]) == x);
                        }
                        if x.len() > 0 && !preferred_labels(menu).contains(x) && exists|j: int|
                            0 <= j < i + 1 && #[trigger] unit_field(menu, self.units@[j]) == x {
                            if x != v@ {
                                let j = choose|j: int| 0 <= j < i + 1 && #[trigger] unit_field(menu, self.units@[j]) == x;
                                assert(j < i);
                            } else {
                                assert(views(r@).contains(v@));
                            }
                        }
                    }
                }
            }
            i += 1;
        }
        r
    }

    /// How many units a menu entry would show.
    fn count_entry_units(&self, menu: FilterMenu, value: Option<&str>) -> (r: usize)
        ensures
            r == entry_count(*self, menu, self.units@, match value {
                Some(v) => Some(v@),
                None => None,
            }),
    {
        let ghost want = match value {
            Some(v) => Some(v@),
            None => None,
        };
        let mut count: usize = 0;
        let mut i: usize = 0;
        while i < self.units.len()
            invariant
                i <= self.units.len(),
                count == entry_count(*self, menu, self.units@.take(i as int), want),
                count <= i,
                want == match value {
                    Some(v) => Some(v@),
                    None => None::<Seq<char>>,
                },
            decreases self.units.len() - i,
        {
            assert(self.units@.take(i + 1).drop_last() == self.units@.take(i as int));
            let unit = &self.units[i];
            let counted = self.unit_matches_scope_for_menu(unit, menu) && match value {
                Some(v) => str_eq(menu.unit_value(unit), v),
                None => true,
            };
            if counted {
                count += 1;
            }
            i += 1;
        }
        assert(self.units@.take(self.units.len() as int) == self.units@);
        count
    }

    /// The entries of a filter menu: "all", then every value with its hotkey,
    /// whether it is set, and how many units it would show.
    pub fn filter_menu_options(&self, menu: FilterMenu) -> (r: Vec<FilterMenuOption>)
        ensures
            is_menu_options(*self, menu, r@),
    {
        let preferred = menu.preferred_order();
        let extra = self.extra_filter_values(menu);
        let mut labels: Vec<String> = Vec::new();
        let mut k: usize = 0;
        while k < preferred.len()
            invariant
                k <= preferred.len(),
                preferred@.map_values(|x: &str| x@) == preferred_labels(menu),
                views(labels@) == preferred_labels(menu).take(k as int),
            decreases preferred.len() - k,
        {
            let ghost before = labels@;
            let item = String::from_str(preferred[k]);
            assert(preferred_labels(menu)[k as int] == preferred@[k as int]@);
            labels.push(item);
            proof {
                lemma_views_push(before, item);
                assert(preferred_labels(menu).take(k + 1) =~= preferred_labels(menu).take(k as int).push(item@));
            }
            k += 1;
        }
        let mut e: usize = 0;
        while e < extra.len()
            invariant
                e <= extra.len(),
                views(labels@) == preferred_labels(menu) + views(extra@).take(e as int),
            decreases extra.len() - e,
        {
            let ghost before = labels@;
            let item = extra[e].clone();
            labels.push(item);
            proof {
                lemma_views_push(before, item);
                assert(views(extra@)[e as int] == item@);
                assert(preferred_labels(menu) + views(extra@).take(e + 1) =~= (preferred_labels(menu) + views(extra@).take(e as int)).push(item@));
            }
            e += 1;
        }
        assert(views(extra@).take(extra.len() as int) == views(extra@));
        let ghost all_labels = views(labels@);
        let mut options: Vec<FilterMenuOption> = Vec::new();
        options.push(
            FilterMenuOption {
                hotkey: 'a',
                label: String::from_str("all"),
                value: None,
                selected: menu.selected_value(self).is_none(),
                count: self.count_entry_units(menu, None),
            },
        );
        let mut used: Vec<char> = vec!['a'];
        assert(used@.to_set() =~= set!['a']);
        let mut j: usize = 0;
        while j < labels.len()
            invariant
                j <= labels.len(),
                views(labels@) == all_labels,
                options.len() == j + 1,
                options@[0].hotkey == 'a',
                options@[0].label@ == "all"@,
                options@[0].value is None,
                options@[0].selected == (menu_filter(*self, menu) is None),
                options@[0].count == entry_count(*self, menu, self.units@, None),
                used@.to_set() == keys_taken(menu, all_labels.take(j as int)),
                forall|k: int| 0 <= k < j ==> {
                    let o = #[trigger] options@[k + 1];
                    &&& o.label@ == all_labels[k]
                    &&& o.hotkey == hotkey_of_entry(menu, all_labels, k)
                    &&& o.value matches Some(v) && v@ == all_labels[k]
                    &&& o.selected == (menu_filter(*self, menu) matches Some(f) && f@ == all_labels[k])
                    &&& o.count == entry_count(*self, menu, self.units@, Some(all_labels[k]))
                },
            decreases labels.len() - j,
        {
            let label = labels[j].as_str();
            assert(all_labels.take(j + 1).drop_last() == all_labels.take(j as int));
            assert(all_labels.take(j + 1).last() == all_labels[j as int]);
            let hotkey = assign_filter_hotkey(menu, label, &mut used);
            let selected = match menu.selected_value(self) {
                Some(v) => str_eq(v, label),
                None => false,
            };
            let count = self.count_entry_units(menu, Some(label));
            options.push(
                FilterMenuOption { hotkey, label: labels[j].clone(), value: Some(labels[j].clone()), selected, count },
            );
            j += 1;
        }
        proof {
            assert(option_labels(options@) =~= all_labels) by {
                assert forall|k: int| 0 <= k < all_labels.len() implies option_labels(options@)[k] == all_labels[k] by {
                    assert(options@[k + 1].label@ == all_labels[k]);
                }
            }
            assert(all_labels.take(preferred_labels(menu).len() as int) =~= preferred_labels(menu));
            assert(all_labels.skip(preferred_labels(menu).len() as int) =~= views(extra@));
        }
        options
    }
}

} // verus!
