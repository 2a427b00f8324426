//! Enablement states of listed units: the unit-file table systemd reports, the
//! cache of states asked for one unit at a time, and how a listed unit gets
//! its state.
use vstd::prelude::*;
use crate::bindings::{file_name_of, path_file_name};
use crate::models::{AttemptResult, UnitAction, UnitInfo};
use crate::text::{chars_of, ends_with, first_index_of, first_position, has_suffix, last_index_of,
    last_position, push_str, str_eq, string_of_range};

verus! {

/// The text of an optional string.
pub open spec fn opt_text(o: Option<String>) -> Option<Seq<char>> {
    match o {
        Some(s) => Some(s@),
        None => None,
    }
}

/// The views of (name, state) pairs.
pub open spec fn pair_views(v: Seq<(String, String)>) -> Seq<(Seq<char>, Seq<char>)> {
    v.map_values(|e: (String, String)| (e.0@, e.1@))
}

/// The state recorded last for `name` in a list of (name, state) pairs: a
/// later pair for the same name replaces an earlier one.
pub open spec fn lookup_state(entries: Seq<(Seq<char>, Seq<char>)>, name: Seq<char>) -> Option<Seq<char>>
    decreases entries.len(),
{
    if entries.len() == 0 {
        None
    } else if entries.last().0 == name {
        Some(entries.last().1)
    } else {
        lookup_state(entries.drop_last(), name)
    }
}

/// The (file name, state) pairs of the listed unit files whose path has a
/// file name, in listing order.
pub open spec fn named_entries(files: Seq<(Seq<char>, Seq<char>)>) -> Seq<(Seq<char>, Seq<char>)>
    decreases files.len(),
{
    if files.len() == 0 {
        Seq::empty()
    } else {
        let rest = named_entries(files.drop_last());
        match path_file_name(files.last().0) {
            Some(name) => rest.push((name, files.last().1)),
            None => rest,
        }
    }
}

/// The template a unit instance comes from: `foo@bar.service` gives
/// `foo@.service`. `None` when the name has no `'.'`, or no `'@'` before its last `'.'`.
pub open spec fn template_of(name: Seq<char>) -> Option<Seq<char>> {
    let dot = last_index_of(name, '.');
    if dot < 0 {
        None
    } else {
        let stem = name.subrange(0, dot);
        let suffix = name.subrange(dot + 1, name.len() as int);
        let at = first_index_of(stem, '@');
        if at < 0 {
            None
        } else {
            Some(stem.subrange(0, at) + "@."@ + suffix)
        }
    }
}

/// The listed state of a unit: its own file's, else its template's.
pub open spec fn found_state(states: Seq<(Seq<char>, Seq<char>)>, name: Seq<char>) -> Option<Seq<char>> {
    match lookup_state(states, name) {
        Some(s) => Some(s),
        None => match template_of(name) {
            Some(t) => lookup_state(states, t),
            None => None,
        },
    }
}

/// The unit kinds that are backed by a unit file.
pub open spec fn has_unit_file_suffix(name: Seq<char>) -> bool {
    ||| has_suffix(name, ".service"@)
    ||| has_suffix(name, ".socket"@)
    ||| has_suffix(name, ".timer"@)
    ||| has_suffix(name, ".mount"@)
    ||| has_suffix(name, ".automount"@)
    ||| has_suffix(name, ".path"@)
    ||| has_suffix(name, ".swap"@)
}

/// The state recorded last for (`scope`, `name`) in the cache entries.
pub open spec fn cache_lookup(entries: Seq<(Seq<char>, Seq<char>, Seq<char>)>, scope: Seq<char>, name: Seq<char>) -> Option<Seq<char>>
    decreases entries.len(),
{
    if entries.len() == 0 {
        None
    } else if entries.last().0 == scope && entries.last().1 == name {
        Some(entries.last().2)
    } else {
        cache_lookup(entries.drop_last(), scope, name)
    }
}

/// The enablement state a unit gets without asking systemd: the listed state
/// of its file or template; `static` for a kind without unit files; else what
/// was asked for earlier in the same scope, if anything.
pub open spec fn resolved_state(
    cache: Seq<(Seq<char>, Seq<char>, Seq<char>)>,
    states: Seq<(Seq<char>, Seq<char>)>,
    scope: Seq<char>,
    name: Seq<char>,
) -> Option<Seq<char>> {
    match found_state(states, name) {
        Some(s) => Some(s),
        None => if !has_unit_file_suffix(name) {
            Some("static"@)
        } else {
            cache_lookup(cache, scope, name)
        },
    }
}

/// The unit-file states systemd lists, keyed by file name.
pub struct UnitFileStates {
    pub entries: Vec<(String, String)>,
}

impl View for UnitFileStates {
    type V = Seq<(Seq<char>, Seq<char>)>;

    open spec fn view(&self) -> Seq<(Seq<char>, Seq<char>)> {
        pair_views(self.entries@)
    }
}

impl UnitFileStates {
    /// The listed state of the file named `name`.
    pub fn get(&self, name: &str) -> (r: Option<String>)
        ensures
            opt_text(r) == lookup_state(self@, name@),
    {
        let mut i = self.entries.len();
        assert(self@.take(i as int) == self@);
        while i > 0
            invariant
                i <= self.entries.len(),
                lookup_state(self@, name@) == lookup_state(self@.take(i as int), name@),
            decreases i,
        {
            assert(self@.take(i as int).drop_last() == self@.take(i - 1));
            if str_eq(self.entries[i - 1].0.as_str(), name) {
                return Some(self.entries[i - 1].1.clone());
            }
            i -= 1;
        }
        None
    }
}

/// Keys the listed unit files by the file name of their path; a path with no
/// file name is left out, and a later file of the same name wins.
pub fn build_unit_file_state_map(unit_files: Vec<(String, String)>) -> (r: UnitFileStates)
    ensures
        r@ == named_entries(pair_views(unit_files@)),
{
    let mut entries: Vec<(String, String)> = Vec::new();
    let ghost files = pair_views(unit_files@);
    let mut i: usize = 0;
    while i < unit_files.len()
        invariant
            i <= unit_files.len(),
            files == pair_views(unit_files@),
            pair_views(entries@) == named_entries(files.take(i as int)),
        decreases unit_files.len() - i,
    {
        assert(files.take(i + 1).drop_last() == files.take(i as int));
        let name = file_name_of(unit_files[i].0.as_str());
        match name {
            Some(n) => {
                let state = unit_files[i].1.clone();
                entries.push((n, state));
            },
            None => {},
        }
        proof {
            let t = files.take(i + 1);
            assert(t.last() == files[i as int]);
        }
        assert(pair_views(entries@) == named_entries(files.take(i + 1)));
        i += 1;
    }
    assert(files.take(unit_files.len() as int) == files);
    UnitFileStates { entries }
}

/// The template name of a unit instance (`foo@bar.service` gives `foo@.service`).
pub fn template_unit_name(unit_name: &str) -> (r: Option<String>)
    ensures
        opt_text(r) == template_of(unit_name@),
{
    let v = chars_of(unit_name);
    match last_position(&v, '.') {
        None => None,
        Some(dot) => {
            let stem = string_of_range(&v, 0, dot);
            let sv = chars_of(stem.as_str());
            match first_position(&sv, '@') {
                None => None,
                Some(at) => {
                    let mut r = string_of_range(&sv, 0, at);
                    push_str(&mut r, "@.");
                    let suffix = string_of_range(&v, dot + 1, v.len());
                    push_str(&mut r, suffix.as_str());
                    Some(r)
                },
            }
        },
    }
}

/// The listed state of a unit: the state of its own file, else that of its template.
pub fn find_cached_unit_file_state(unit_name: &str, unit_file_states: &UnitFileStates) -> (r: Option<String>)
    ensures
        opt_text(r) == found_state(unit_file_states@, unit_name@),
{
    match unit_file_states.get(unit_name) {
        Some(state) => Some(state),
        None => match template_unit_name(unit_name) {
            Some(template) => unit_file_states.get(template.as_str()),
            None => None,
        },
    }
}

/// Whether units of this kind are backed by a unit file.
pub fn unit_has_file(unit_name: &str) -> (r: bool)
    ensures
        r == has_unit_file_suffix(unit_name@),
{
    ends_with(unit_name, ".service") || ends_with(unit_name, ".socket") || ends_with(unit_name, ".timer")
        || ends_with(unit_name, ".mount") || ends_with(unit_name, ".automount") || ends_with(
        unit_name,
        ".path",
    ) || ends_with(unit_name, ".swap")
}

/// The views of (scope, name, state) cache entries.
pub open spec fn triple_views(v: Seq<(String, String, String)>) -> Seq<(Seq<char>, Seq<char>, Seq<char>)> {
    v.map_values(|e: (String, String, String)| (e.0@, e.1@, e.2@))
}

/// Enablement states asked of systemd one unit at a time, by scope and unit name.
pub struct EnablementCache {
    pub entries: Vec<(String, String, String)>,
}

impl View for EnablementCache {
    type V = Seq<(Seq<char>, Seq<char>, Seq<char>)>;

    open spec fn view(&self) -> Seq<(Seq<char>, Seq<char>, Seq<char>)> {
        triple_views(self.entries@)
    }
}

/// An empty cache.
pub fn enablement_state_cache() -> (r: EnablementCache)
    ensures
        r@.len() == 0,
{
    EnablementCache { entries: Vec::new() }
}

/// Forgets every cached state.
pub fn clear_enablement_state_cache(cache: &mut EnablementCache)
    ensures
        final(cache)@.len() == 0,
{
    cache.entries = Vec::new();
}

/// Records the state of `unit_name` in `scope`.
pub fn cache_enablement_state(cache: &mut EnablementCache, scope: &str, unit_name: &str, state: &str)
    ensures
        final(cache)@ == old(cache)@.push((scope@, unit_name@, state@)),
{
    let entry = (scope.to_string(), unit_name.to_string(), state.to_string());
    cache.entries.push(entry);
    assert(triple_views(cache.entries@) =~= triple_views(old(cache).entries@).push((scope@, unit_name@, state@)));
}

/// The cached state of `unit_name` in `scope`.
pub fn cached_enablement_state(cache: &EnablementCache, scope: &str, unit_name: &str) -> (r: Option<String>)
    ensures
        opt_text(r) == cache_lookup(cache@, scope@, unit_name@),
{
    let mut i = cache.entries.len();
    assert(cache@.take(i as int) == cache@);
    while i > 0
        invariant
            i <= cache.entries.len(),
            cache_lookup(cache@, scope@, unit_name@) == cache_lookup(cache@.take(i as int), scope@, unit_name@),
        decreases i,
    {
        assert(cache@.take(i as int).drop_last() == cache@.take(i - 1));
        if str_eq(cache.entries[i - 1].0.as_str(), scope) && str_eq(cache.entries[i - 1].1.as_str(), unit_name) {
            return Some(cache.entries[i - 1].2.clone());
        }
        i -= 1;
    }
    None
}

/// The enablement state of a unit when it can be had without asking systemd.
pub fn resolve_enablement_state_cached(
    cache: &EnablementCache,
    scope: &str,
    unit_name: &str,
    unit_file_states: &UnitFileStates,
) -> (r: Option<String>)
    ensures
        opt_text(r) == resolved_state(cache@, unit_file_states@, scope@, unit_name@),
{
    if let Some(state) = find_cached_unit_file_state(unit_name, unit_file_states) {
        return Some(state);
    }
    if !unit_has_file(unit_name) {
        return Some("static".to_string());
    }
    cached_enablement_state(cache, scope, unit_name)
}

/// The state systemd gave for a unit, `transient` when asking failed.
pub open spec fn fetched_or_transient(fetched: Option<Seq<char>>) -> Seq<char> {
    match fetched {
        Some(s) => s,
        None => "transient"@,
    }
}

/// Takes the answer systemd gave for a unit's file state (`None` when the
/// call failed), records it in the cache and returns the state the unit gets.
pub fn store_fetched_enablement_state(
    cache: &mut EnablementCache,
    scope: &str,
    unit_name: &str,
    fetched: Option<String>,
) -> (r: String)
    ensures
        r@ == fetched_or_transient(opt_text(fetched)),
        final(cache)@ == old(cache)@.push((scope@, unit_name@, r@)),
{
    let state = match fetched {
        Some(s) => s,
        None => "transient".to_string(),
    };
    cache_enablement_state(cache, scope, unit_name, state.as_str());
    state
}

/// Caching a state makes it the cached state of its key and leaves every
/// other key's cached state as it was.
pub proof fn lemma_cache_then_lookup(
    entries: Seq<(Seq<char>, Seq<char>, Seq<char>)>,
    scope: Seq<char>,
    name: Seq<char>,
    state: Seq<char>,
    other_scope: Seq<char>,
    other_name: Seq<char>,
)
    ensures
        cache_lookup(entries.push((scope, name, state)), scope, name) == Some(state),
        !(other_scope == scope && other_name == name) ==> cache_lookup(
            entries.push((scope, name, state)),
            other_scope,
            other_name,
        ) == cache_lookup(entries, other_scope, other_name),
{
    assert(entries.push((scope, name, state)).drop_last() == entries);
}

/// Whether an action changes which unit files are enabled, so that cached
/// enablement states may be stale after it.
pub open spec fn changes_enablement(action: UnitAction) -> bool {
    match action {
        UnitAction::Enable | UnitAction::Disable | UnitAction::Mask | UnitAction::Unmask => true,
        _ => false,
    }
}

/// Whether an action changes which unit files are enabled.
pub fn action_changes_enablement(action: UnitAction) -> (r: bool)
    ensures
        r == changes_enablement(action),
{
    match action {
        UnitAction::Enable | UnitAction::Disable | UnitAction::Mask | UnitAction::Unmask => true,
        _ => false,
    }
}

/// Takes the outcome of a unit action sent to systemd (the error text when it
/// failed), forgets the cached enablement states when a successful action
/// may have changed them, and reports the result.
pub fn complete_unit_action(cache: &mut EnablementCache, action: UnitAction, outcome: Result<(), String>) -> (r: AttemptResult)
    ensures
        r.success == (outcome is Ok),
        match outcome {
            Ok(_) => r.error is None,
            Err(e) => r.error == Some(e),
        },
        (outcome is Ok && changes_enablement(action)) ==> final(cache)@.len() == 0,
        !(outcome is Ok && changes_enablement(action)) ==> final(cache)@ == old(cache)@,
{
    match outcome {
        Ok(()) => {
            if action_changes_enablement(action) {
                clear_enablement_state_cache(cache);
            }
            AttemptResult { success: true, error: None }
        },
        Err(e) => AttemptResult { success: false, error: Some(e) },
    }
}

/// A unit as `ListUnits` reports it, with its object path as text.
pub struct UnitRow {
    pub name: String,
    pub description: String,
    pub load_state: String,
    pub active_state: String,
    pub sub_state: String,
    pub path: String,
}

impl Clone for UnitRow {
    fn clone(&self) -> (r: Self)
        ensures
            r == *self,
    {
        UnitRow {
            name: self.name.clone(),
            description: self.description.clone(),
            load_state: self.load_state.clone(),
            active_state: self.active_state.clone(),
            sub_state: self.sub_state.clone(),
            path: self.path.clone(),
        }
    }
}

/// `info` is the unit of `row`, listed in `scope` with enablement state `state`.
pub open spec fn describes_row(info: UnitInfo, row: UnitRow, scope: Seq<char>, state: Seq<char>) -> bool {
    &&& info.name@ == row.name@
    &&& info.description@ == row.description@
    &&& info.scope@ == scope
    &&& info.load_state@ == row.load_state@
    &&& info.active_state@ == row.active_state@
    &&& info.enablement_state@ == state
    &&& info.sub_state@ == row.sub_state@
    &&& info.path@ == row.path@
}

/// The unit of a listed row, in `scope`, with the given enablement state.
pub fn unit_info_from_row(row: UnitRow, scope: &str, enablement_state: String) -> (r: UnitInfo)
    ensures
        describes_row(r, row, scope@, enablement_state@),
{
    UnitInfo {
        name: row.name,
        description: row.description,
        scope: scope.to_string(),
        load_state: row.load_state,
        active_state: row.active_state,
        enablement_state,
        sub_state: row.sub_state,
        path: row.path,
    }
}

/// The positions of the rows whose state resolves without asking systemd
/// (`resolved == true`), or of those whose state does not (`false`), in order.
pub open spec fn rows_where(
    rows: Seq<UnitRow>,
    cache: Seq<(Seq<char>, Seq<char>, Seq<char>)>,
    states: Seq<(Seq<char>, Seq<char>)>,
    scope: Seq<char>,
    resolved: bool,
) -> Seq<int>
    decreases rows.len(),
{
    if rows.len() == 0 {
        Seq::empty()
    } else {
        let rest = rows_where(rows.drop_last(), cache, states, scope, resolved);
        if (resolved_state(cache, states, scope, rows.last().name@) is Some) == resolved {
            rest.push(rows.len() - 1)
        } else {
            rest
        }
    }
}

proof fn lemma_rows_where_bounded(
    rows: Seq<UnitRow>,
    cache: Seq<(Seq<char>, Seq<char>, Seq<char>)>,
    states: Seq<(Seq<char>, Seq<char>)>,
    scope: Seq<char>,
    resolved: bool,
)
    ensures
        forall|k: int| 0 <= k < rows_where(rows, cache, states, scope, resolved).len()
            ==> 0 <= #[trigger] rows_where(rows, cache, states, scope, resolved)[k] < rows.len(),
    decreases rows.len(),
{
    if rows.len() > 0 {
        lemma_rows_where_bounded(rows.drop_last(), cache, states, scope, resolved);
        let rest = rows_where(rows.drop_last(), cache, states, scope, resolved);
        let all = rows_where(rows, cache, states, scope, resolved);
        assert forall|k: int| 0 <= k < all.len() implies 0 <= #[trigger] all[k] < rows.len() by {
            if k < rest.len() {
                assert(all[k] == rest[k]);
            }
        }
    }
}

/// Splits the rows of one scope into the units whose enablement state is
/// known without asking systemd, with that state, and the rows left to ask
/// about; both keep the listing order.
pub fn split_resolved_units(
    scope: &str,
    rows: &Vec<UnitRow>,
    cache: &EnablementCache,
    unit_file_states: &UnitFileStates,
) -> (r: (Vec<UnitInfo>, Vec<UnitRow>))
    ensures
        r.0.len() == rows_where(rows@, cache@, unit_file_states@, scope@, true).len(),
        r.1.len() == rows_where(rows@, cache@, unit_file_states@, scope@, false).len(),
        forall|k: int| 0 <= k < r.0.len() ==> {
            let row = rows@[rows_where(rows@, cache@, unit_file_states@, scope@, true)[k]];
            describes_row(#[trigger] r.0@[k], row, scope@,
                resolved_state(cache@, unit_file_states@, scope@, row.name@)->0)
        },
        forall|k: int| 0 <= k < r.1.len() ==> #[trigger] r.1@[k] == rows@[rows_where(
            rows@,
            cache@,
            unit_file_states@,
            scope@,
            false,
        )[k]],
{
    let mut units: Vec<UnitInfo> = Vec::new();
    let mut unresolved: Vec<UnitRow> = Vec::new();
    let mut i: usize = 0;
    while i < rows.len()
        invariant
            i <= rows.len(),
            units.len() == rows_where(rows@.take(i as int), cache@, unit_file_states@, scope@, true).len(),
            unresolved.len() == rows_where(rows@.take(i as int), cache@, unit_file_states@, scope@, false).len(),
            forall|k: int| 0 <= k < units.len() ==> {
                let row = rows@[rows_where(rows@.take(i as int), cache@, unit_file_states@, scope@, true)[k]];
                describes_row(#[trigger] units@[k], row, scope@,
                    resolved_state(cache@, unit_file_states@, scope@, row.name@)->0)
            },
            forall|k: int| 0 <= k < unresolved.len() ==> #[trigger] unresolved@[k] == rows@[rows_where(
                rows@.take(i as int),
                cache@,
                unit_file_states@,
                scope@,
                false,
            )[k]],
        decreases rows.len() - i,
    {
        let ghost before = rows@.take(i as int);
        let ghost after = rows@.take(i + 1);
        proof {
            assert(after.drop_last() == before);
            lemma_rows_where_bounded(before, cache@, unit_file_states@, scope@, true);
            lemma_rows_where_bounded(before, cache@, unit_file_states@, scope@, false);
        }
        let row = &rows[i];
        match resolve_enablement_state_cached(cache, scope, row.name.as_str(), unit_file_states) {
            Some(state) => {
                let info = unit_info_from_row(row.clone(), scope, state);
                units.push(info);
            },
            None => {
                unresolved.push(row.clone());
            },
        }
        proof {
            let rt = rows_where(after, cache@, unit_file_states@, scope@, true);
            let rf = rows_where(after, cache@, unit_file_states@, scope@, false);
            let bt = rows_where(before, cache@, unit_file_states@, scope@, true);
            let bf = rows_where(before, cache@, unit_file_states@, scope@, false);
            assert forall|k: int| 0 <= k < bt.len() implies rt[k] == bt[k] by {}
            assert forall|k: int| 0 <= k < bf.len() implies rf[k] == bf[k] by {}
        }
        i += 1;
    }
    assert(rows@.take(rows.len() as int) == rows@);
    (units, unresolved)
}

/// Whether a unit's fragment path names a file to show: not empty and not
/// `/dev/null` (a masked or transient unit).
pub fn fragment_path_usable(path: &str) -> (r: bool)
    ensures
        r == (path@.len() > 0 && path@ != "/dev/null"@),
{
    !path.is_empty() && !str_eq(path, "/dev/null")
}

} // verus!
