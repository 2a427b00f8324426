//! Text search in the unit list, the log view and the file view, and the line
//! selections of the log view.
use vstd::prelude::*;
use crate::keys::{KeyCode, KeyEvent};
use crate::state::{App, strictly_increasing};
use crate::text::{
    char_count, chars_of, contains, contains_seq, join, join_seqs, lines, push_char, string_of_range,
    text_lines, views,
};

verus! {

/// The query after an editing key: a character is inserted at the cursor,
/// Backspace removes the character before it; other keys leave it.
pub open spec fn edited_query(query: Seq<char>, cursor: usize, code: KeyCode) -> Seq<char> {
    let len = query.len();
    match code {
        KeyCode::Backspace => if cursor > 0 {
            let from = if cursor - 1 < len { cursor - 1 } else { len as int };
            let to = if cursor < len { cursor as int } else { len as int };
            query.take(from) + query.skip(to)
        } else {
            query
        },
        KeyCode::Char(c) => {
            let at = if cursor < len { cursor as int } else { len as int };
            query.take(at).push(c) + query.skip(at)
        },
        _ => query,
    }
}

/// The cursor after an editing key: Left and Right move it within the query,
/// Backspace moves it back, a character forward.
pub open spec fn edited_cursor(query: Seq<char>, cursor: usize, code: KeyCode) -> usize {
    match code {
        KeyCode::Left => if cursor > 0 {
            (cursor - 1) as usize
        } else {
            0
        },
        KeyCode::Right => if cursor < query.len() {
            (cursor + 1) as usize
        } else {
            query.len() as usize
        },
        KeyCode::Backspace => if cursor > 0 {
            (cursor - 1) as usize
        } else {
            0
        },
        KeyCode::Char(_) => if cursor < usize::MAX {
            (cursor + 1) as usize
        } else {
            cursor
        },
        _ => cursor,
    }
}

/// The positions of the lines that contain `query`, in order.
pub open spec fn lines_containing(ls: Seq<Seq<char>>, query: Seq<char>) -> Seq<usize>
    decreases ls.len(),
{
    if ls.len() == 0 {
        Seq::empty()
    } else {
        let prev = lines_containing(ls.drop_last(), query);
        if contains_seq(ls.last(), query) {
            prev.push((ls.len() - 1) as usize)
        } else {
            prev
        }
    }
}

/// The search hits: none for an empty query.
pub open spec fn search_hits(ls: Seq<Seq<char>>, query: Seq<char>) -> Seq<usize> {
    if query.len() == 0 {
        Seq::empty()
    } else {
        lines_containing(ls, query)
    }
}

/// The first hit after `current`.
pub open spec fn first_after(hits: Seq<usize>, current: usize) -> Option<usize>
    decreases hits.len(),
{
    if hits.len() == 0 {
        None
    } else if hits[0] > current {
        Some(hits[0])
    } else {
        first_after(hits.drop_first(), current)
    }
}

/// The last hit before `current`.
pub open spec fn last_before(hits: Seq<usize>, current: usize) -> Option<usize>
    decreases hits.len(),
{
    if hits.len() == 0 {
        None
    } else if hits.last() < current {
        Some(hits.last())
    } else {
        last_before(hits.drop_last(), current)
    }
}

/// The hit that `n` (forward) or `N` jumps to from `current`, wrapping around.
pub open spec fn cycled_hit(hits: Seq<usize>, current: usize, forward: bool) -> usize {
    if forward {
        match first_after(hits, current) {
            Some(h) => h,
            None => hits[0],
        }
    } else {
        match last_before(hits, current) {
            Some(h) => h,
            None => hits.last(),
        }
    }
}

/// The marked line range of line-wise selection: the two marks in order, or
/// one mark twice.
pub open spec fn mark_range(marks: Seq<usize>) -> Option<(usize, usize)> {
    if marks.len() == 0 {
        None
    } else if marks.len() == 1 {
        Some((marks[0], marks[0]))
    } else if marks[0] <= marks[1] {
        Some((marks[0], marks[1]))
    } else {
        Some((marks[1], marks[0]))
    }
}

/// The marks after marking line `i`: a marked line is unmarked; otherwise it
/// is added and only the two newest marks are kept.
pub open spec fn toggled_marks(marks: Seq<usize>, i: usize) -> Seq<usize> {
    if first_position(marks, i) >= 0 {
        marks.remove(first_position(marks, i))
    } else if marks.len() >= 2 {
        marks.push(i).drop_first()
    } else {
        marks.push(i)
    }
}

/// The set with `i` taken out when it holds it, put in otherwise.
pub open spec fn toggled_set(s: Set<usize>, i: usize) -> Set<usize> {
    if s.contains(i) {
        s.remove(i)
    } else {
        s.insert(i)
    }
}

/// `new` is `old` with the highlighted log line picked or unpicked (nothing
/// changes when no line is highlighted).
pub open spec fn toggles_picked_line(old: App, new: App) -> bool {
    match old.log_selected {
        None => new == old,
        Some(i) => new.selected_log_lines@.to_set() == toggled_set(old.selected_log_lines@.to_set(), i)
            && new == (App { selected_log_lines: new.selected_log_lines, ..old }),
    }
}

/// The first position of `x` in `s`, or -1.
pub open spec fn first_position(s: Seq<usize>, x: usize) -> int
    decreases s.len(),
{
    if s.len() == 0 {
        -1
    } else if s[0] == x {
        0
    } else {
        let p = first_position(s.drop_first(), x);
        if p < 0 {
            -1
        } else {
            p + 1
        }
    }
}

/// The first position of `x`, when there is one, lies within `s`.
pub proof fn lemma_first_position_bounds(s: Seq<usize>, x: usize)
    ensures
        first_position(s, x) >= -1,
        first_position(s, x) >= 0 ==> first_position(s, x) < s.len(),
    decreases s.len(),
{
    if s.len() > 0 && s[0] != x {
        lemma_first_position_bounds(s.drop_first(), x);
    }
}

proof fn lemma_first_position(s: Seq<usize>, x: usize, k: int)
    requires
        0 <= k <= s.len(),
        forall|j: int| 0 <= j < k ==> s[j] != x,
    ensures
        k < s.len() && s[k] == x ==> first_position(s, x) == k,
        k == s.len() ==> first_position(s, x) == -1,
    decreases k,
{
    if k > 0 {
        lemma_first_position(s.drop_first(), x, k - 1);
    }
}

/// The lines from `start` through `end`, cut at the end of the log.
pub open spec fn range_text(logs: Seq<Seq<char>>, start: usize, end: usize) -> Option<Seq<char>> {
    if start < logs.len() {
        let stop = if end < logs.len() { end + 1 } else { logs.len() as int };
        Some(join_seqs(logs.subrange(start as int, stop), "\n"@))
    } else {
        None
    }
}

/// The lines at the given positions that exist, in order.
pub open spec fn picked_lines(logs: Seq<Seq<char>>, picks: Seq<usize>) -> Seq<Seq<char>>
    decreases picks.len(),
{
    if picks.len() == 0 {
        Seq::empty()
    } else {
        let prev = picked_lines(logs, picks.drop_last());
        if picks.last() < logs.len() {
            prev.push(logs[picks.last() as int])
        } else {
            prev
        }
    }
}

/// Applies an editing key to a query and its cursor.
pub fn edit_search_key_impl(key: KeyEvent, query: &mut String, cursor: &mut usize)
    ensures
        final(query)@ == edited_query(old(query)@, *old(cursor), key.code),
        *final(cursor) == edited_cursor(old(query)@, *old(cursor), key.code),
{
    let len = char_count(query.as_str());
    match key.code {
        KeyCode::Left => {
            if *cursor > 0 {
                *cursor = *cursor - 1;
            }
        },
        KeyCode::Right => {
            if *cursor < len {
                *cursor = *cursor + 1;
            } else {
                *cursor = len;
            }
        },
        KeyCode::Backspace => {
            if *cursor > 0 {
                let v = chars_of(query.as_str());
                let from = if *cursor - 1 < len { *cursor - 1 } else { len };
                let to = if *cursor < len { *cursor } else { len };
                let mut next = string_of_range(&v, 0, from);
                let rest = string_of_range(&v, to, len);
                next.append(rest.as_str());
                assert(v@.subrange(0, from as int) == v@.take(from as int));
                assert(v@.subrange(to as int, len as int) == v@.skip(to as int));
                *query = next;
                *cursor = *cursor - 1;
            }
        },
        KeyCode::Char(c) => {
            let v = chars_of(query.as_str());
            let at = if *cursor < len { *cursor } else { len };
            let mut next = string_of_range(&v, 0, at);
            push_char(&mut next, c);
            let rest = string_of_range(&v, at, len);
            next.append(rest.as_str());
            assert(v@.subrange(0, at as int) == v@.take(at as int));
            assert(v@.subrange(at as int, len as int) == v@.skip(at as int));
            *query = next;
            if *cursor < usize::MAX {
                *cursor = *cursor + 1;
            }
        },
        _ => {},
    }
}

/// The positions of the lines in `ls` that contain `query`.
pub fn matching_line_positions(ls: &Vec<String>, query: &str) -> (r: Vec<usize>)
    ensures
        r@ == lines_containing(views(ls@), query@),
{
    let mut r: Vec<usize> = Vec::new();
    let mut i: usize = 0;
    while i < ls.len()
        invariant
            i <= ls.len(),
            r@ == lines_containing(views(ls@.take(i as int)), query@),
        decreases ls.len() - i,
    {
        assert(views(ls@.take(i + 1)).drop_last() == views(ls@.take(i as int)));
        if contains(ls[i].as_str(), query) {
            r.push(i);
        }
        i += 1;
    }
    assert(ls@.take(ls.len() as int) == ls@);
    r
}

proof fn lemma_lines_containing_bounded(ls: Seq<Seq<char>>, query: Seq<char>)
    requires
        ls.len() <= usize::MAX,
    ensures
        strictly_increasing(lines_containing(ls, query)),
        forall|k: int| 0 <= k < lines_containing(ls, query).len() ==> #[trigger] lines_containing(ls, query)[k] < ls.len(),
    decreases ls.len(),
{
    if ls.len() > 0 {
        lemma_lines_containing_bounded(ls.drop_last(), query);
        let prev = lines_containing(ls.drop_last(), query);
        assert(forall|k: int| 0 <= k < prev.len() ==> #[trigger] prev[k] < ls.len() - 1);
        let cur = lines_containing(ls, query);
        if contains_seq(ls.last(), query) {
            assert(cur == prev.push((ls.len() - 1) as usize));
            assert forall|i: int, j: int| 0 <= i < j < cur.len() implies cur[i] < cur[j] by {
                if j == prev.len() {
                    assert(cur[i] == prev[i]);
                    assert(prev[i] < ls.len() - 1);
                    assert(cur[j] == ls.len() - 1);
                } else {
                    assert(cur[i] == prev[i] && cur[j] == prev[j]);
                }
            }
        } else {
            assert(cur == prev);
        }
    }
}

/// The hit to jump to from `current`.
pub fn cycle_hit(hits: &Vec<usize>, current: usize, forward: bool) -> (r: usize)
    requires
        hits.len() > 0,
    ensures
        r == cycled_hit(hits@, current, forward),
{
    if forward {
        let mut k: usize = 0;
        assert(hits@.skip(0) == hits@);
        while k < hits.len()
            invariant
                k <= hits.len(),
                hits.len() > 0,
                forward,
                first_after(hits@, current) == first_after(hits@.skip(k as int), current),
            decreases hits.len() - k,
        {
            assert(hits@.skip(k as int).drop_first() == hits@.skip(k + 1));
            assert(hits@.skip(k as int)[0] == hits@[k as int]);
            if hits[k] > current {
                return hits[k];
            }
            k += 1;
        }
        hits[0]
    } else {
        let mut k: usize = hits.len();
        assert(hits@.take(k as int) == hits@);
        while k > 0
            invariant
                k <= hits.len(),
                hits.len() > 0,
                !forward,
                last_before(hits@, current) == last_before(hits@.take(k as int), current),
            decreases k,
        {
            assert(hits@.take(k as int).drop_last() == hits@.take(k - 1));
            assert(hits@.take(k as int).last() == hits@[k - 1]);
            if hits[k - 1] < current {
                return hits[k - 1];
            }
            k -= 1;
        }
        hits[hits.len() - 1]
    }
}

impl App {
    /// The file lines that contain the file search query.
    pub open spec fn spec_file_hits(&self) -> Seq<usize> {
        search_hits(text_lines(self.unit_file_content@), self.file_search_query@)
    }

    /// The log lines that contain the log search query.
    pub open spec fn spec_log_hits(&self) -> Seq<usize> {
        search_hits(views(self.unit_logs@), self.log_search_query@)
    }

    /// Starts editing the unit search with the cursor after the query.
    pub fn start_search(&mut self)
        ensures
            *final(self) == (App { is_searching: true, search_cursor: old(self).search_query@.len() as usize, ..*old(self) }),
    {
        self.is_searching = true;
        self.search_cursor = char_count(self.search_query.as_str());
    }

    /// Puts the unit search cursor after the query.
    pub fn set_search_cursor_to_end(&mut self)
        ensures
            *final(self) == (App { search_cursor: old(self).search_query@.len() as usize, ..*old(self) }),
    {
        self.search_cursor = char_count(self.search_query.as_str());
    }

    /// Leaves the unit search and empties its query.
    pub fn clear_search(&mut self)
        ensures
            final(self).search_query@.len() == 0,
            *final(self) == (App {
                is_searching: false,
                search_query: final(self).search_query,
                search_cursor: 0,
                ..*old(self)
            }),
    {
        self.is_searching = false;
        self.search_query = String::new();
        self.search_cursor = 0;
    }

    /// Applies an editing key to the unit search query.
    pub fn edit_unit_search_key(&mut self, key: KeyEvent)
        ensures
            final(self).search_query@ == edited_query(old(self).search_query@, old(self).search_cursor, key.code),
            *final(self) == (App {
                search_query: final(self).search_query,
                search_cursor: edited_cursor(old(self).search_query@, old(self).search_cursor, key.code),
                ..*old(self)
            }),
    {
        edit_search_key_impl(key, &mut self.search_query, &mut self.search_cursor);
    }

    /// Starts editing the log search, keeping its query.
    pub fn start_log_search(&mut self)
        ensures
            *final(self) == (App {
                log_search_mode: true,
                log_search_cursor: old(self).log_search_query@.len() as usize,
                ..*old(self)
            }),
    {
        self.log_search_mode = true;
        self.log_search_cursor = char_count(self.log_search_query.as_str());
    }

    /// Leaves the log search and empties its query.
    pub fn clear_log_search(&mut self)
        ensures
            final(self).log_search_query@.len() == 0,
            *final(self) == (App {
                log_search_mode: false,
                log_search_query: final(self).log_search_query,
                log_search_cursor: 0,
                ..*old(self)
            }),
    {
        self.log_search_mode = false;
        self.log_search_query = String::new();
        self.log_search_cursor = 0;
    }

    /// Applies an editing key to the log search query.
    pub fn edit_log_search_key(&mut self, key: KeyEvent)
        ensures
            final(self).log_search_query@ == edited_query(old(self).log_search_query@, old(self).log_search_cursor, key.code),
            *final(self) == (App {
                log_search_query: final(self).log_search_query,
                log_search_cursor: edited_cursor(old(self).log_search_query@, old(self).log_search_cursor, key.code),
                ..*old(self)
            }),
    {
        edit_search_key_impl(key, &mut self.log_search_query, &mut self.log_search_cursor);
    }

    /// Starts editing the file search, keeping its query.
    pub fn start_file_search(&mut self)
        ensures
            *final(self) == (App {
                file_search_mode: true,
                file_search_cursor: old(self).file_search_query@.len() as usize,
                ..*old(self)
            }),
    {
        self.file_search_mode = true;
        self.file_search_cursor = char_count(self.file_search_query.as_str());
    }

    /// Leaves the file search, empties its query and forgets the current hit.
    pub fn clear_file_search(&mut self)
        ensures
            final(self).file_search_query@.len() == 0,
            *final(self) == (App {
                file_search_mode: false,
                file_search_query: final(self).file_search_query,
                file_search_cursor: 0,
                file_search_match: None,
                ..*old(self)
            }),
    {
        self.file_search_mode = false;
        self.file_search_query = String::new();
        self.file_search_cursor = 0;
        self.file_search_match = None;
    }

    /// Applies an editing key to the file search query.
    pub fn edit_file_search_key(&mut self, key: KeyEvent)
        ensures
            final(self).file_search_query@ == edited_query(old(self).file_search_query@, old(self).file_search_cursor, key.code),
            *final(self) == (App {
                file_search_query: final(self).file_search_query,
                file_search_cursor: edited_cursor(old(self).file_search_query@, old(self).file_search_cursor, key.code),
                ..*old(self)
            }),
    {
        edit_search_key_impl(key, &mut self.file_search_query, &mut self.file_search_cursor);
    }

    /// The positions of the file lines that contain the file search query;
    /// none for an empty query.
    pub fn file_search_matches(&self) -> (r: Vec<usize>)
        ensures
            r@ == self.spec_file_hits(),
    {
        if self.file_search_query.as_str().is_empty() {
            return Vec::new();
        }
        let ls = lines(self.unit_file_content.as_str());
        matching_line_positions(&ls, self.file_search_query.as_str())
    }

    /// Jumps to the next (`forward`) or previous file search hit, counted from
    /// the current hit or, without one, from the top line shown; wraps around.
    pub fn cycle_file_search_match(&mut self, forward: bool)
        ensures
            old(self).spec_file_hits().len() == 0 ==> *final(self) == (App { file_search_match: None, ..*old(self) }),
            old(self).spec_file_hits().len() > 0 ==> {
                let current = match old(self).file_search_match {
                    Some(m) => m,
                    None => old(self).file_scroll as usize,
                };
                let next = cycled_hit(old(self).spec_file_hits(), current, forward);
                *final(self) == (App { file_search_match: Some(next), file_scroll: next as u16, ..*old(self) })
            },
    {
        let hits = self.file_search_matches();
        if hits.len() == 0 {
            self.file_search_match = None;
            return;
        }
        let current = match self.file_search_match {
            Some(m) => m,
            None => self.file_scroll as usize,
        };
        let next = cycle_hit(&hits, current, forward);
        self.file_search_match = Some(next);
        self.file_scroll = next as u16;
    }

    /// Leaves both visual select modes and forgets their selections.
    pub fn clear_log_visual_modes(&mut self)
        ensures
            final(self).selected_log_lines@.len() == 0,
            final(self).selected_log_line_marks@.len() == 0,
            *final(self) == (App {
                visual_select: false,
                visual_line_select: false,
                selected_log_lines: final(self).selected_log_lines,
                selected_log_line_marks: final(self).selected_log_line_marks,
                ..*old(self)
            }),
    {
        self.visual_select = false;
        self.visual_line_select = false;
        self.selected_log_lines = Vec::new();
        self.selected_log_line_marks = Vec::new();
    }

    /// The positions of the log lines that contain the log search query; none
    /// for an empty query.
    pub fn log_search_matches(&self) -> (r: Vec<usize>)
        ensures
            r@ == self.spec_log_hits(),
    {
        if self.log_search_query.as_str().is_empty() {
            return Vec::new();
        }
        matching_line_positions(&self.unit_logs, self.log_search_query.as_str())
    }

    /// Highlights the next (`forward`) or previous log line that contains the
    /// query, counted from the highlighted line (or the first); wraps around.
    pub fn cycle_log_search_match(&mut self, forward: bool)
        ensures
            old(self).spec_log_hits().len() == 0 ==> *final(self) == *old(self),
            old(self).spec_log_hits().len() > 0 ==> *final(self) == (App {
                log_selected: Some(
                    cycled_hit(
                        old(self).spec_log_hits(),
                        match old(self).log_selected {
                            Some(i) => i,
                            None => 0usize,
                        },
                        forward,
                    ),
                ),
                ..*old(self)
            }),
    {
        let hits = self.log_search_matches();
        if hits.len() == 0 {
            return;
        }
        let current = match self.log_selected {
            Some(i) => i,
            None => 0,
        };
        let next = cycle_hit(&hits, current, forward);
        self.log_selected = Some(next);
    }

    /// Marks or unmarks the highlighted log line as an end of the line range;
    /// at most the two newest marks are kept.
    pub fn toggle_log_line_mark(&mut self)
        ensures
            match old(self).log_selected {
                None => *final(self) == *old(self),
                Some(i) => final(self).selected_log_line_marks@ == toggled_marks(old(self).selected_log_line_marks@, i)
                    && *final(self) == (App { selected_log_line_marks: final(self).selected_log_line_marks, ..*old(self) }),
            },
    {
        let i = match self.log_selected {
            Some(i) => i,
            None => return,
        };
        let mut k: usize = 0;
        while k < self.selected_log_line_marks.len()
            invariant
                *self == *old(self),
                self.log_selected == Some(i),
                k <= self.selected_log_line_marks.len(),
                forall|j: int| 0 <= j < k ==> self.selected_log_line_marks@[j] != i,
            decreases self.selected_log_line_marks.len() - k,
        {
            if self.selected_log_line_marks[k] == i {
                proof {
                    lemma_first_position(self.selected_log_line_marks@, i, k as int);
                }
                self.selected_log_line_marks.remove(k);
                return;
            }
            k += 1;
        }
        proof {
            lemma_first_position(self.selected_log_line_marks@, i, k as int);
        }
        self.selected_log_line_marks.push(i);
        if self.selected_log_line_marks.len() > 2 {
            self.selected_log_line_marks.remove(0);
        }
    }

    /// The range of log lines between the marks.
    pub fn selected_log_line_range(&self) -> (r: Option<(usize, usize)>)
        ensures
            r == mark_range(self.selected_log_line_marks@),
    {
        let marks = &self.selected_log_line_marks;
        if marks.len() == 0 {
            None
        } else if marks.len() == 1 {
            Some((marks[0], marks[0]))
        } else if marks[0] <= marks[1] {
            Some((marks[0], marks[1]))
        } else {
            Some((marks[1], marks[0]))
        }
    }

    /// The text of the log lines between the marks, one line per line.
    pub fn selected_log_lines_text(&self) -> (r: Option<String>)
        ensures
            match mark_range(self.selected_log_line_marks@) {
                None => r is None,
                Some((start, end)) => match range_text(views(self.unit_logs@), start, end) {
                    None => r is None,
                    Some(t) => r matches Some(s) && s@ == t,
                },
            },
    {
        let (start, end) = match self.selected_log_line_range() {
            Some(range) => range,
            None => return None,
        };
        let len = self.unit_logs.len();
        if start >= len {
            return None;
        }
        let stop = if end < len { end + 1 } else { len };
        let mut picked: Vec<String> = Vec::new();
        let mut i = start;
        while i < stop
            invariant
                start <= i <= stop <= len == self.unit_logs.len(),
                views(picked@) == views(self.unit_logs@).subrange(start as int, i as int),
            decreases stop - i,
        {
            picked.push(self.unit_logs[i].clone());
            assert(views(self.unit_logs@).subrange(start as int, i + 1) == views(self.unit_logs@).subrange(start as int, i as int).push(self.unit_logs@[i as int]@));
            assert(views(picked@) =~= views(self.unit_logs@).subrange(start as int, i + 1));
            i += 1;
        }
        Some(join(&picked, "\n"))
    }

    /// Picks or unpicks the highlighted log line in visual select mode.
    pub fn toggle_selected_log_line(&mut self)
        requires
            old(self).wf(),
        ensures
            final(self).wf(),
            toggles_picked_line(*old(self), *final(self)),
    {
        let i = match self.log_selected {
            Some(i) => i,
            None => return,
        };
        let mut k: usize = 0;
        while k < self.selected_log_lines.len() && self.selected_log_lines[k] < i
            invariant
                *self == *old(self),
                self.wf(),
                k <= self.selected_log_lines.len(),
                forall|j: int| 0 <= j < k ==> self.selected_log_lines@[j] < i,
            decreases self.selected_log_lines.len() - k,
        {
            k += 1;
        }
        let ghost before = self.selected_log_lines@;
        if k < self.selected_log_lines.len() && self.selected_log_lines[k] == i {
            self.selected_log_lines.remove(k);
            proof {
                assert(self.selected_log_lines@.to_set() =~= before.to_set().remove(i)) by {
                    assert forall|x: usize| self.selected_log_lines@.to_set().contains(x) <==> before.to_set().remove(i).contains(x) by {
                        if before.contains(x) && x != i {
                            let j = choose|j: int| 0 <= j < before.len() && before[j] == x;
                            if j < k {
                                assert(self.selected_log_lines@[j] == x);
                            } else {
                                assert(self.selected_log_lines@[j - 1] == x);
                            }
                        }
                        if self.selected_log_lines@.contains(x) {
                            let j = choose|j: int| 0 <= j < self.selected_log_lines@.len() && self.selected_log_lines@[j] == x;
                            if j < k {
                                assert(before[j] == x);
                            } else {
                                assert(before[j + 1] == x);
                            }
                        }
                    }
                }
            }
        } else {
            self.selected_log_lines.insert(k, i);
            proof {
                assert(!before.contains(i)) by {
                    if before.contains(i) {
                        let j = choose|j: int| 0 <= j < before.len() && before[j] == i;
                        if j >= k {
                            assert(before[j] >= before[k as int]);
                        }
                    }
                }
                assert(self.selected_log_lines@.to_set() =~= before.to_set().insert(i)) by {
                    assert forall|x: usize| self.selected_log_lines@.to_set().contains(x) <==> before.to_set().insert(i).contains(x) by {
                        if before.contains(x) {
                            let j = choose|j: int| 0 <= j < before.len() && before[j] == x;
                            if j < k {
                                assert(self.selected_log_lines@[j] == x);
                            } else {
                                assert(self.selected_log_lines@[j + 1] == x);
                            }
                        }
                        if x == i {
                            assert(self.selected_log_lines@[k as int] == x);
                        }
                        if self.selected_log_lines@.contains(x) {
                            let j = choose|j: int| 0 <= j < self.selected_log_lines@.len() && self.selected_log_lines@[j] == x;
                            if j < k {
                                assert(before[j] == x);
                            } else if j > k {
                                assert(before[j - 1] == x);
                            }
                        }
                    }
                }
            }
        }
    }

    /// The text of the log lines picked in visual select mode, in log order;
    /// `None` when none of them exists.
    pub fn visual_selection_text(&self) -> (r: Option<String>)
        ensures
            picked_lines(views(self.unit_logs@), self.selected_log_lines@).len() == 0 ==> r is None,
            picked_lines(views(self.unit_logs@), self.selected_log_lines@).len() > 0 ==> (r matches Some(s)
                && s@ == join_seqs(picked_lines(views(self.unit_logs@), self.selected_log_lines@), "\n"@)),
    {
        let mut picked: Vec<String> = Vec::new();
        let mut k: usize = 0;
        while k < self.selected_log_lines.len()
            invariant
                k <= self.selected_log_lines.len(),
                views(picked@) == picked_lines(views(self.unit_logs@), self.selected_log_lines@.take(k as int)),
            decreases self.selected_log_lines.len() - k,
        {
            assert(self.selected_log_lines@.take(k + 1).drop_last() == self.selected_log_lines@.take(k as int));
            let i = self.selected_log_lines[k];
            if i < self.unit_logs.len() {
                picked.push(self.unit_logs[i].clone());
                assert(views(picked@) =~= picked_lines(views(self.unit_logs@), self.selected_log_lines@.take(k + 1)));
            }
            k += 1;
        }
        assert(self.selected_log_lines@.take(k as int) == self.selected_log_lines@);
        if picked.len() == 0 {
            None
        } else {
            Some(join(&picked, "\n"))
        }
    }
}

/// The number of bytes of the UTF-8 encoding of `s`.
pub open spec fn utf8_len(s: Seq<char>) -> nat
    decreases s.len(),
{
    if s.len() == 0 {
        0
    } else {
        utf8_len(s.drop_last()) + crate::terminal::utf8_encoding(s.last()).len()
    }
}

proof fn lemma_utf8_len_prefix(s: Seq<char>, i: int)
    requires
        0 <= i <= s.len(),
    ensures
        utf8_len(s.take(i)) <= utf8_len(s),
    decreases s.len() - i,
{
    if i < s.len() {
        lemma_utf8_len_prefix(s, i + 1);
        assert(s.take(i + 1).drop_last() == s.take(i));
    } else {
        assert(s.take(i) == s);
    }
}

proof fn lemma_char_width(c: char)
    ensures
        crate::terminal::utf8_encoding(c).len() == vstd::utf8::encode_scalar(c as u32).len(),
{
}

proof fn lemma_encode_push(s: Seq<char>, c: char)
    ensures
        vstd::utf8::encode_utf8(s.push(c)).len() == vstd::utf8::encode_utf8(s).len()
            + vstd::utf8::encode_scalar(c as u32).len(),
    decreases s.len(),
{
    let t = s.push(c);
    assert(vstd::utf8::encode_utf8(t) == vstd::utf8::encode_scalar(t[0] as u32) + vstd::utf8::encode_utf8(
        t.drop_first(),
    ));
    if s.len() > 0 {
        lemma_encode_push(s.drop_first(), c);
        assert(t.drop_first() == s.drop_first().push(c));
        assert(t[0] == s[0]);
        assert(vstd::utf8::encode_utf8(s) == vstd::utf8::encode_scalar(s[0] as u32) + vstd::utf8::encode_utf8(
            s.drop_first(),
        ));
    } else {
        assert(t.drop_first() =~= Seq::<char>::empty());
        assert(vstd::utf8::encode_utf8(Seq::<char>::empty()) =~= Seq::<u8>::empty());
        assert(vstd::utf8::encode_utf8(s) =~= Seq::<u8>::empty());
    }
}

/// The byte count `utf8_len` gives is the length of vstd's UTF-8 encoding.
pub proof fn lemma_utf8_len_matches(s: Seq<char>)
    ensures
        utf8_len(s) == vstd::utf8::encode_utf8(s).len(),
    decreases s.len(),
{
    if s.len() > 0 {
        lemma_utf8_len_matches(s.drop_last());
        lemma_encode_push(s.drop_last(), s.last());
        lemma_char_width(s.last());
        assert(s.drop_last().push(s.last()) == s);
    }
}

/// The byte offset in `value` of the character at `char_index`, or the byte
/// length of `value` when there is no such character.
pub fn char_to_byte_index(value: &str, char_index: usize) -> (r: usize)
    ensures
        r == utf8_len(value@.take(if char_index < value@.len() { char_index as int } else { value@.len() as int })),
{
    let v = chars_of(value);
    let bytes_of_value = value.as_bytes();
    let total = bytes_of_value.len();
    proof {
        lemma_utf8_len_matches(value@);
        assert(bytes_of_value@.len() == total);
    }
    let end = if char_index < v.len() { char_index } else { v.len() };
    let mut bytes: usize = 0;
    let mut i: usize = 0;
    while i < end
        invariant
            i <= end <= v.len(),
            v@ == value@,
            utf8_len(value@) <= usize::MAX,
            bytes == utf8_len(v@.take(i as int)),
        decreases end - i,
    {
        proof {
            assert(v@.take(i + 1).drop_last() == v@.take(i as int));
            lemma_utf8_len_prefix(v@, i + 1);
        }
        let n = crate::terminal::encode_utf8(v[i]).len();
        bytes = bytes + n;
        i += 1;
    }
    bytes
}

/// What an editing key did to a search query.
#[derive(Debug, Clone, Copy, PartialEq, Eq, Structural)]
pub enum SearchInputAction {
    /// The cursor moved.
    Cursor,
    /// The query changed (or would have, at its start).
    Edit,
}

/// The kind of an editing key: Left and Right move the cursor, Backspace
/// and characters edit; other keys are not editing keys.
pub open spec fn search_input_kind(code: KeyCode) -> Option<SearchInputAction> {
    match code {
        KeyCode::Left | KeyCode::Right => Some(SearchInputAction::Cursor),
        KeyCode::Backspace | KeyCode::Char(_) => Some(SearchInputAction::Edit),
        _ => None,
    }
}

impl App {
    /// Applies an editing key to the search of the current view and says
    /// what kind of key it was; other keys change nothing.
    pub fn handle_search_key(&mut self, key: KeyEvent) -> (r: Option<SearchInputAction>)
        ensures
            r == search_input_kind(key.code),
            r is None ==> *final(self) == *old(self),
            r is Some ==> match old(self).view_mode {
                crate::state::ViewMode::UnitList => final(self).search_query@ == edited_query(
                    old(self).search_query@,
                    old(self).search_cursor,
                    key.code,
                ) && *final(self) == (App {
                    search_query: final(self).search_query,
                    search_cursor: edited_cursor(old(self).search_query@, old(self).search_cursor, key.code),
                    ..*old(self)
                }),
                crate::state::ViewMode::LogView => final(self).log_search_query@ == edited_query(
                    old(self).log_search_query@,
                    old(self).log_search_cursor,
                    key.code,
                ) && *final(self) == (App {
                    log_search_query: final(self).log_search_query,
                    log_search_cursor: edited_cursor(old(self).log_search_query@, old(self).log_search_cursor, key.code),
                    ..*old(self)
                }),
                crate::state::ViewMode::FileView => final(self).file_search_query@ == edited_query(
                    old(self).file_search_query@,
                    old(self).file_search_cursor,
                    key.code,
                ) && *final(self) == (App {
                    file_search_query: final(self).file_search_query,
                    file_search_cursor: edited_cursor(old(self).file_search_query@, old(self).file_search_cursor, key.code),
                    ..*old(self)
                }),
            },
    {
        let kind = match key.code {
            KeyCode::Left | KeyCode::Right => Some(SearchInputAction::Cursor),
            KeyCode::Backspace | KeyCode::Char(_) => Some(SearchInputAction::Edit),
            _ => None,
        };
        if kind.is_some() {
            match self.view_mode {
                crate::state::ViewMode::UnitList => self.edit_unit_search_key(key),
                crate::state::ViewMode::LogView => self.edit_log_search_key(key),
                crate::state::ViewMode::FileView => self.edit_file_search_key(key),
            }
        }
        kind
    }
}

} // verus!
