//! Which unit and which log line are highlighted, and the edit requests built
//! from the highlighted unit.
use vstd::prelude::*;
use crate::models::{EditRequest, EditReview, PrivilegedAction, UnitEditMode, UnitInfo};
use crate::keys::{unit_action_for_command, command_action};
use crate::state::{App, UnitSelectionKey, build_override_template, override_template, unit_key};

verus! {

/// The empty key, kept when nothing is selected.
pub open spec fn empty_key() -> (Seq<char>, Seq<char>, Seq<char>) {
    (Seq::<char>::empty(), Seq::<char>::empty(), Seq::<char>::empty())
}

/// `base + delta` kept within `0..=last`.
pub open spec fn clamp_step(base: int, delta: int, last: int) -> int {
    if base + delta < 0 {
        0
    } else if base + delta > last {
        last
    } else {
        base + delta
    }
}

/// The first position in `filtered` whose unit has key `key`.
pub open spec fn key_position(units: Seq<UnitInfo>, filtered: Seq<usize>, key: (Seq<char>, Seq<char>, Seq<char>)) -> Option<int>
    decreases filtered.len(),
{
    if filtered.len() == 0 {
        None
    } else {
        match key_position(units, filtered.drop_last(), key) {
            Some(p) => Some(p),
            None => if unit_key(units[filtered.last() as int]) == key {
                Some(filtered.len() - 1)
            } else {
                None
            },
        }
    }
}

/// The row that restoring the selection of `key` highlights: the first shown
/// row with that key, else the first row, else none.
pub open spec fn restored_row(units: Seq<UnitInfo>, filtered: Seq<usize>, key: Option<(Seq<char>, Seq<char>, Seq<char>)>) -> Option<usize> {
    let fallback = if filtered.len() == 0 {
        None
    } else {
        Some(0usize)
    };
    match key {
        Some(k) => match key_position(units, filtered, k) {
            Some(p) => Some(p as usize),
            None => fallback,
        },
        None => fallback,
    }
}

/// `new` is `old` with row `index` highlighted and its key recorded.
pub open spec fn selects_row(old: App, index: Option<usize>, new: App) -> bool {
    &&& new.list_selected == index
    &&& new.selected_unit_key@ == old.key_for_row(index)
    &&& new == (App { list_selected: index, selected_unit_key: new.selected_unit_key, ..old })
}

/// The row a move by `delta` lands on.
pub open spec fn moved_row(app: App, delta: int) -> usize {
    match app.list_selected {
        Some(i) => clamp_step(i as int, delta, app.filtered_units.len() - 1) as usize,
        None => 0usize,
    }
}

/// `new` is `old` after moving the unit highlight by `delta`.
pub open spec fn moves_selection(old: App, delta: int, new: App) -> bool {
    if old.filtered_units.len() == 0 {
        new == old
    } else {
        selects_row(old, Some(moved_row(old, delta)), new)
    }
}

/// The log line a move by `delta` lands on.
pub open spec fn moved_log_row(app: App, delta: int) -> usize {
    match app.log_selected {
        Some(i) => clamp_step(i as int, delta, app.unit_logs.len() - 1) as usize,
        None => if delta > 0 {
            0usize
        } else {
            (app.unit_logs.len() - 1) as usize
        },
    }
}

/// `new` is `old` after moving the log highlight by `delta`.
pub open spec fn moves_log_selection(old: App, delta: int, new: App) -> bool {
    if old.unit_logs.len() == 0 {
        new == old
    } else {
        new == (App { log_selected: Some(moved_log_row(old, delta)), ..old })
    }
}

/// `req` edits `unit` in `mode`, starting from the override template or the
/// current file, and restores the current file view when dropped.
pub open spec fn is_edit_request(app: App, unit: UnitInfo, mode: UnitEditMode, req: EditRequest) -> bool {
    &&& req.unit_name@ == unit.name@
    &&& req.scope@ == unit.scope@
    &&& req.mode == mode
    &&& req.initial_content@ == match mode {
        UnitEditMode::Override => override_template(unit.name@, app.unit_file_path@),
        UnitEditMode::Full => app.unit_file_content@,
    }
    &&& req.restore_content@ == app.unit_file_content@
    &&& req.restore_path@ == app.unit_file_path@
}

/// `new` is `old` with the draft under review dropped and the file restored.
pub open spec fn discards_review(old: App, new: App) -> bool {
    match old.pending_edit_review {
        None => new == old,
        Some(review) => new == (App {
            unit_file_content: review.restore_content,
            unit_file_path: review.restore_path,
            file_scroll: 0,
            pending_edit_review: None,
            ..old
        }),
    }
}

impl App {
    /// The highlighted row, if it is one of the shown rows.
    pub open spec fn spec_selected_index(&self) -> Option<usize> {
        match self.list_selected {
            Some(i) => if i < self.filtered_units.len() {
                Some(i)
            } else {
                None
            },
            None => None,
        }
    }

    /// The highlighted unit.
    pub open spec fn selected_unit(&self) -> Option<UnitInfo> {
        match self.spec_selected_index() {
            Some(i) => Some(self.units@[self.filtered_units@[i as int] as int]),
            None => None,
        }
    }

    /// The key that selecting row `index` records.
    pub open spec fn key_for_row(&self, index: Option<usize>) -> (Seq<char>, Seq<char>, Seq<char>) {
        match index {
            Some(i) => if i < self.filtered_units.len() {
                unit_key(self.units@[self.filtered_units@[i as int] as int])
            } else {
                empty_key()
            },
            None => empty_key(),
        }
    }

    /// The highlighted row, if it is one of the shown rows.
    pub fn selected_unit_index(&self) -> (r: Option<usize>)
        ensures
            r == self.spec_selected_index(),
    {
        match self.list_selected {
            Some(i) => if i < self.filtered_units.len() {
                Some(i)
            } else {
                None
            },
            None => None,
        }
    }

    /// The highlighted unit.
    pub fn get_selected_unit(&self) -> (r: Option<&UnitInfo>)
        requires
            self.wf(),
        ensures
            r == match self.selected_unit() {
                Some(u) => Some(&u),
                None => None::<&UnitInfo>,
            },
    {
        match self.selected_unit_index() {
            Some(i) => Some(&self.units[self.filtered_units[i]]),
            None => None,
        }
    }

    /// The key identifying `unit`.
    pub fn selected_unit_key_for(unit: &UnitInfo) -> (r: UnitSelectionKey)
        ensures
            r@ == unit_key(*unit),
    {
        UnitSelectionKey { name: unit.name.clone(), scope: unit.scope.clone(), path: unit.path.clone() }
    }

    /// Highlights row `index` and records the key of its unit.
    pub fn select_filtered_unit_index(&mut self, index: Option<usize>)
        requires
            old(self).wf(),
        ensures
            selects_row(*old(self), index, *final(self)),
    {
        self.list_selected = index;
        let key = match index {
            Some(i) => if i < self.filtered_units.len() {
                App::selected_unit_key_for(&self.units[self.filtered_units[i]])
            } else {
                UnitSelectionKey::default()
            },
            None => UnitSelectionKey::default(),
        };
        self.selected_unit_key = key;
    }

    /// Highlights the shown row holding the unit with key `selected_unit_key`;
    /// failing that the first row, or nothing when no row is shown.
    pub fn restore_selection(&mut self, selected_unit_key: Option<&UnitSelectionKey>)
        requires
            old(self).wf(),
        ensures
            final(self).list_selected == restored_row(
                old(self).units@,
                old(self).filtered_units@,
                match selected_unit_key {
                    Some(k) => Some(k@),
                    None => None,
                },
            ),
            final(self).selected_unit_key@ == old(self).key_for_row(final(self).list_selected),
            *final(self) == (App {
                list_selected: final(self).list_selected,
                selected_unit_key: final(self).selected_unit_key,
                ..*old(self)
            }),
    {
        if selected_unit_key.is_some() {
            let wanted = selected_unit_key.unwrap();
            let mut p: usize = 0;
            while p < self.filtered_units.len()
                invariant
                    self.wf(),
                    *self == *old(self),
                    selected_unit_key == Some(wanted),
                    p <= self.filtered_units.len(),
                    key_position(self.units@, self.filtered_units@.take(p as int), wanted@) is None,
                decreases self.filtered_units.len() - p,
            {
                assert(self.filtered_units@.take(p + 1).drop_last() == self.filtered_units@.take(p as int));
                let unit = &self.units[self.filtered_units[p]];
                if unit.name == wanted.name && unit.scope == wanted.scope && unit.path == wanted.path {
                    proof {
                        assert(unit_key(self.units@[self.filtered_units@[p as int] as int]) == wanted@);
                        lemma_key_position_prefix(self.units@, self.filtered_units@, wanted@, p as int);
                        assert(key_position(old(self).units@, old(self).filtered_units@, wanted@) == Some(p as int));
                    }
                    self.select_filtered_unit_index(Some(p));
                    assert(self.list_selected == Some(p));
                    return;
                }
                p += 1;
            }
            assert(self.filtered_units@.take(p as int) == self.filtered_units@);
        }
        if self.filtered_units.len() == 0 {
            self.select_filtered_unit_index(None);
        } else {
            self.select_filtered_unit_index(Some(0));
        }
    }

    /// Moves the unit highlight by `delta` rows, staying within the shown rows;
    /// with nothing highlighted the first row is taken.
    pub fn move_selection(&mut self, delta: i32)
        requires
            old(self).wf(),
        ensures
            moves_selection(*old(self), delta as int, *final(self)),
    {
        let len = self.filtered_units.len();
        if len == 0 {
            return;
        }
        let next = match self.list_selected {
            Some(i) => clamped_step(i, delta, len - 1),
            None => 0,
        };
        self.select_filtered_unit_index(Some(next));
    }

    /// Moves the log highlight by `delta` lines, staying within the log; with
    /// nothing highlighted, a forward move takes the first line and any other the last.
    pub fn move_log_selection(&mut self, delta: i32)
        ensures
            moves_log_selection(*old(self), delta as int, *final(self)),
    {
        let len = self.unit_logs.len();
        if len == 0 {
            return;
        }
        let next = match self.log_selected {
            Some(i) => clamped_step(i, delta, len - 1),
            None => if delta > 0 {
                0
            } else {
                len - 1
            },
        };
        self.log_selected = Some(next);
    }

    /// The edit request for the highlighted unit: an override starts from the
    /// template, a full replacement from the current file content.
    pub fn build_edit_request(&self, mode: UnitEditMode) -> (r: Option<EditRequest>)
        requires
            self.wf(),
        ensures
            match self.selected_unit() {
                None => r is None,
                Some(unit) => r matches Some(req) && is_edit_request(*self, unit, mode, req),
            },
    {
        let unit = match self.get_selected_unit() {
            Some(u) => u,
            None => return None,
        };
        let initial_content = match mode {
            UnitEditMode::Override => build_override_template(unit.name.as_str(), self.unit_file_path.as_str()),
            UnitEditMode::Full => self.unit_file_content.clone(),
        };
        Some(
            EditRequest {
                unit_name: unit.name.clone(),
                scope: unit.scope.clone(),
                mode,
                initial_content,
                restore_content: self.unit_file_content.clone(),
                restore_path: self.unit_file_path.clone(),
            },
        )
    }

    /// Takes back a draft from the editor: unchanged drafts are dropped; a
    /// changed one is shown in the file view and waits for review.
    pub fn finish_edit_request(&mut self, request: EditRequest, edited_content: String)
        ensures
            edited_content@ == request.initial_content@ ==> *final(self) == *old(self),
            edited_content@ != request.initial_content@ ==> {
                &&& final(self).unit_file_content@ == edited_content@
                &&& final(self).unit_file_path@ == crate::models::edit_mode_draft_prefix(request.mode)
                    + request.unit_name@
                &&& final(self).file_scroll == 0
                &&& final(self).pending_edit_review == Some(
                    EditReview {
                        unit_name: request.unit_name,
                        scope: request.scope,
                        mode: request.mode,
                        edited_content,
                        restore_content: request.restore_content,
                        restore_path: request.restore_path,
                    },
                )
                &&& *final(self) == (App {
                    unit_file_content: final(self).unit_file_content,
                    unit_file_path: final(self).unit_file_path,
                    file_scroll: 0,
                    pending_edit_review: final(self).pending_edit_review,
                    ..*old(self)
                })
            },
    {
        if edited_content == request.initial_content {
            return;
        }
        self.unit_file_content = edited_content.clone();
        self.unit_file_path = request.mode.draft_label(request.unit_name.as_str());
        self.file_scroll = 0;
        self.pending_edit_review = Some(
            EditReview {
                unit_name: request.unit_name,
                scope: request.scope,
                mode: request.mode,
                edited_content,
                restore_content: request.restore_content,
                restore_path: request.restore_path,
            },
        );
    }

    /// Drops the draft under review and shows the file as it was before the edit.
    pub fn discard_edit_review(&mut self)
        ensures
            discards_review(*old(self), *final(self)),
    {
        if let Some(review) = self.pending_edit_review.take() {
            self.unit_file_content = review.restore_content;
            self.unit_file_path = review.restore_path;
            self.file_scroll = 0;
        }
    }

    /// The privileged action that runs command `action` (as named by
    /// [`crate::keys::unit_command_for_key`]) on the highlighted unit.
    pub fn trigger_selected_unit_command(&self, action: &str) -> (r: Option<PrivilegedAction>)
        requires
            self.wf(),
        ensures
            match (self.selected_unit(), command_action(action@)) {
                (Some(unit), Some(a)) => r == Some(
                    PrivilegedAction::UnitCommand { unit_name: unit.name, scope: unit.scope, action: a },
                ),
                _ => r is None,
            },
    {
        let unit = match self.get_selected_unit() {
            Some(u) => u,
            None => return None,
        };
        match unit_action_for_command(action) {
            Some(a) => Some(
                PrivilegedAction::UnitCommand { unit_name: unit.name.clone(), scope: unit.scope.clone(), action: a },
            ),
            None => None,
        }
    }
}

proof fn lemma_key_position_prefix(units: Seq<UnitInfo>, filtered: Seq<usize>, key: (Seq<char>, Seq<char>, Seq<char>), p: int)
    requires
        0 <= p < filtered.len(),
        key_position(units, filtered.take(p), key) is None,
        unit_key(units[filtered[p] as int]) == key,
    ensures
        key_position(units, filtered, key) == Some(p),
    decreases filtered.len(),
{
    assert(filtered.take(p + 1).drop_last() == filtered.take(p));
    if p + 1 == filtered.len() {
        assert(filtered.take(p + 1) == filtered);
    } else {
        assert(filtered.drop_last().take(p) == filtered.take(p));
        lemma_key_position_prefix(units, filtered.drop_last(), key, p);
    }
}

/// `base + delta` kept within `0..=last`.
pub fn clamped_step(base: usize, delta: i32, last: usize) -> (r: usize)
    ensures
        r == clamp_step(base as int, delta as int, last as int),
{
    if delta < 0 {
        let back: usize = (-(delta as i64)) as usize;
        if back > base {
            0
        } else if base - back > last {
            last
        } else {
            base - back
        }
    } else {
        let forward: usize = delta as usize;
        if base > last || forward > last - base {
            last
        } else {
            base + forward
        }
    }
}

} // verus!
