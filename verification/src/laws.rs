//! Properties that hold across the library's functions: labels and colours
//! agree, display operations keep the text they style, searches land on
//! matches, and the selection and cache bookkeeping stays bounded.
use vstd::prelude::*;
use crate::commands::normalized_edit;
use crate::display::{
    continues, file_line_spans, label_active_color, label_enablement_color, label_load_color,
    label_scope_color, leading_ws, raw_spans, clipped,
};
use crate::models::{
    active_state_color, active_state_label, enablement_state_color, enablement_state_label, load_state_color,
    load_state_label, parse_active_state, parse_enablement_state, parse_load_state, parse_scope,
    parse_unit_type, scope_color, scope_label, unit_type_label, unit_type_of_label, UnitActiveState,
    UnitEnablementState, UnitLoadState, UnitScope, UnitType,
};
use crate::search::{cycled_hit, first_after, last_before, toggled_marks, first_position, toggled_set, toggles_picked_line};
use crate::state::strictly_increasing;
use crate::styles::{clip_spans, highlight_spans, span_pieces, split_matches, SpanStyle, first_occurrence,
    lemma_first_occurrence_bounds};
use crate::terminal::unix_newlines;
use crate::text::{contains_seq, has_suffix, occurs_at, text_lines, split_newlines, first_index_of};
use crate::unit_files::{cache_lookup, found_state, has_unit_file_suffix, resolved_state};
use crate::filters::{passes_state_filters, preferred_keys, refilters};
use crate::state::{App, FilterMenu, NavAction, ViewMode};
use crate::bindings::fuzzy_score;
use crate::events::navigates;
use crate::keys::{action_verb, command_action};
use crate::models::UnitAction;

verus! {

/// Every unit type's label reads back as that type.
pub proof fn lemma_unit_type_round_trip(t: UnitType)
    ensures
        parse_unit_type(unit_type_label(t)) == Some(t),
        unit_type_of_label(unit_type_label(t)) == t,
{
    reveal_strlit("path");
    assert("path"@.len() == 4);
    reveal_strlit("swap");
    assert("swap"@.len() == 4);
    reveal_strlit("mount");
    assert("mount"@.len() == 5);
    reveal_strlit("scope");
    assert("scope"@.len() == 5);
    reveal_strlit("slice");
    assert("slice"@.len() == 5);
    reveal_strlit("timer");
    assert("timer"@.len() == 5);
    reveal_strlit("device");
    assert("device"@.len() == 6);
    reveal_strlit("socket");
    assert("socket"@.len() == 6);
    reveal_strlit("target");
    assert("target"@.len() == 6);
    reveal_strlit("service");
    assert("service"@.len() == 7);
    reveal_strlit("unknown");
    assert("unknown"@.len() == 7);
    reveal_strlit("automount");
    assert("automount"@.len() == 9);
    assert("path"@[0] != "swap"@[0]);
    assert("mount"@[0] != "scope"@[0]);
    assert("mount"@[0] != "slice"@[0]);
    assert("mount"@[0] != "timer"@[0]);
    assert("scope"@[1] != "slice"@[1]);
    assert("scope"@[0] != "timer"@[0]);
    assert("slice"@[0] != "timer"@[0]);
    assert("device"@[0] != "socket"@[0]);
    assert("device"@[0] != "target"@[0]);
    assert("socket"@[0] != "target"@[0]);
    assert("service"@[0] != "unknown"@[0]);
}

/// Every scope's label reads back as that scope, and is drawn in its colour.
pub proof fn lemma_scope_round_trip(x: UnitScope)
    ensures
        parse_scope(scope_label(x)) == Some(x),
        label_scope_color(scope_label(x)) == scope_color(x),
{
    reveal_strlit("global");
    assert("global"@.len() == 6);
    reveal_strlit("session");
    assert("session"@.len() == 7);
}

/// Every load state's label reads back as that state, and is drawn in its colour.
pub proof fn lemma_load_state_round_trip(x: UnitLoadState)
    ensures
        parse_load_state(load_state_label(x)) == Some(x),
        label_load_color(load_state_label(x)) == load_state_color(x),
{
    reveal_strlit("stub");
    assert("stub"@.len() == 4);
    reveal_strlit("error");
    assert("error"@.len() == 5);
    reveal_strlit("loaded");
    assert("loaded"@.len() == 6);
    reveal_strlit("masked");
    assert("masked"@.len() == 6);
    reveal_strlit("merged");
    assert("merged"@.len() == 6);
    reveal_strlit("unknown");
    assert("unknown"@.len() == 7);
    reveal_strlit("not-found");
    assert("not-found"@.len() == 9);
    reveal_strlit("bad-setting");
    assert("bad-setting"@.len() == 11);
    assert("loaded"@[0] != "masked"@[0]);
    assert("loaded"@[0] != "merged"@[0]);
    assert("masked"@[1] != "merged"@[1]);
}

/// Every active state's label reads back as that state, and is drawn in its colour.
pub proof fn lemma_active_state_round_trip(x: UnitActiveState)
    ensures
        parse_active_state(active_state_label(x)) == Some(x),
        label_active_color(active_state_label(x)) == active_state_color(x),
{
    reveal_strlit("active");
    assert("active"@.len() == 6);
    reveal_strlit("failed");
    assert("failed"@.len() == 6);
    reveal_strlit("unknown");
    assert("unknown"@.len() == 7);
    reveal_strlit("inactive");
    assert("inactive"@.len() == 8);
    reveal_strlit("reloading");
    assert("reloading"@.len() == 9);
    reveal_strlit("activating");
    assert("activating"@.len() == 10);
    reveal_strlit("maintenance");
    assert("maintenance"@.len() == 11);
    reveal_strlit("deactivating");
    assert("deactivating"@.len() == 12);
    assert("active"@[0] != "failed"@[0]);
}

/// Every enablement state's label reads back as that state, and is drawn in its colour.
pub proof fn lemma_enablement_state_round_trip(x: UnitEnablementState)
    ensures
        parse_enablement_state(enablement_state_label(x)) == Some(x),
        label_enablement_color(enablement_state_label(x)) == enablement_state_color(x),
{
    reveal_strlit("alias");
    assert("alias"@.len() == 5);
    reveal_strlit("linked");
    assert("linked"@.len() == 6);
    reveal_strlit("masked");
    assert("masked"@.len() == 6);
    reveal_strlit("static");
    assert("static"@.len() == 6);
    reveal_strlit("enabled");
    assert("enabled"@.len() == 7);
    reveal_strlit("invalid");
    assert("invalid"@.len() == 7);
    reveal_strlit("unknown");
    assert("unknown"@.len() == 7);
    reveal_strlit("disabled");
    assert("disabled"@.len() == 8);
    reveal_strlit("indirect");
    assert("indirect"@.len() == 8);
    reveal_strlit("generated");
    assert("generated"@.len() == 9);
    reveal_strlit("transient");
    assert("transient"@.len() == 9);
    reveal_strlit("linked-runtime");
    assert("linked-runtime"@.len() == 14);
    reveal_strlit("masked-runtime");
    assert("masked-runtime"@.len() == 14);
    reveal_strlit("enabled-runtime");
    assert("enabled-runtime"@.len() == 15);
    reveal_strlit("disabled-runtime");
    assert("disabled-runtime"@.len() == 16);
    assert("linked"@[0] != "masked"@[0]);
    assert("linked"@[0] != "static"@[0]);
    assert("masked"@[0] != "static"@[0]);
    assert("enabled"@[0] != "invalid"@[0]);
    assert("enabled"@[0] != "unknown"@[0]);
    assert("invalid"@[0] != "unknown"@[0]);
    assert("disabled"@[0] != "indirect"@[0]);
    assert("generated"@[0] != "transient"@[0]);
    assert("linked-runtime"@[0] != "masked-runtime"@[0]);
}

/// Distinct unit types have distinct labels.
pub proof fn lemma_unit_type_labels_distinct(a: UnitType, b: UnitType)
    ensures
        unit_type_label(a) == unit_type_label(b) ==> a == b,
{
    lemma_unit_type_round_trip(a);
    lemma_unit_type_round_trip(b);
}

/// A draft sent to `systemctl edit` always ends in a newline, and
/// normalizing it again changes nothing.
pub proof fn lemma_normalized_edit(content: Seq<char>)
    ensures
        has_suffix(normalized_edit(content), "\n"@),
        normalized_edit(normalized_edit(content)) == normalized_edit(content),
{
    reveal_strlit("\n");
    if !has_suffix(content, "\n"@) {
        let n = content.push('\n');
        assert(n.skip(n.len() - 1) =~= seq!['\n']);
        assert("\n"@ =~= seq!['\n']);
    }
}

/// The text of a list of spans, end to end.
pub open spec fn span_text(spans: Seq<(Seq<char>, SpanStyle)>) -> Seq<char>
    decreases spans.len(),
{
    if spans.len() == 0 {
        Seq::empty()
    } else {
        span_text(spans.drop_last()) + spans.last().0
    }
}

proof fn lemma_span_text_one(x: (Seq<char>, SpanStyle))
    ensures
        span_text(seq![x]) == x.0,
{
    let e = Seq::<(Seq<char>, SpanStyle)>::empty();
    assert(seq![x].drop_last() =~= e);
    assert(span_text(e) == Seq::<char>::empty());
    assert(Seq::<char>::empty() + x.0 =~= x.0);
}

proof fn lemma_span_text_append(a: Seq<(Seq<char>, SpanStyle)>, b: Seq<(Seq<char>, SpanStyle)>)
    ensures
        span_text(a + b) == span_text(a) + span_text(b),
    decreases b.len(),
{
    if b.len() == 0 {
        assert(a + b =~= a);
        assert(span_text(a) + Seq::<char>::empty() =~= span_text(a));
    } else {
        lemma_span_text_append(a, b.drop_last());
        assert((a + b).drop_last() =~= a + b.drop_last());
        assert(span_text(a) + span_text(b.drop_last()) + b.last().0 =~= span_text(a) + (span_text(b.drop_last())
            + b.last().0));
    }
}

proof fn lemma_split_matches_text(t: Seq<char>, q: Seq<char>, st: SpanStyle)
    requires
        q.len() > 0,
    ensures
        span_text(split_matches(t, q, st)) == t,
    decreases t.len(),
{
    let p = first_occurrence(t, q);
    lemma_first_occurrence_bounds(t, q);
    if p < 0 {
        if t.len() > 0 {
            lemma_span_text_one((t, st));
        }
    } else {
        let rest = t.skip(p + q.len());
        lemma_split_matches_text(rest, q, st);
        let before: Seq<(Seq<char>, SpanStyle)> = if p > 0 {
            seq![(t.take(p), st)]
        } else {
            Seq::empty()
        };
        let mid = seq![(q, crate::styles::patched(st, crate::styles::match_style()))];
        assert(split_matches(t, q, st) == before + mid + split_matches(rest, q, st));
        lemma_span_text_append(before + mid, split_matches(rest, q, st));
        lemma_span_text_append(before, mid);
        lemma_span_text_one((q, crate::styles::patched(st, crate::styles::match_style())));
        if p > 0 {
            lemma_span_text_one((t.take(p), st));
        } else {
            assert(span_text(before) =~= Seq::<char>::empty());
        }
        assert(t.subrange(p, p + q.len()) == q);
        assert(t.take(p) + q + rest =~= t);
    }
}

/// Marking search matches in a line keeps its text: the spans still spell
/// out the same characters.
pub proof fn lemma_highlight_keeps_text(spans: Seq<(Seq<char>, SpanStyle)>, q: Seq<char>)
    ensures
        span_text(highlight_spans(spans, q)) == span_text(spans),
    decreases spans.len(),
{
    if spans.len() > 0 {
        lemma_highlight_keeps_text(spans.drop_last(), q);
        lemma_span_text_append(highlight_spans(spans.drop_last(), q), span_pieces(spans.last(), q));
        let last = spans.last();
        if q.len() == 0 || !contains_seq(last.0, q) {
            lemma_span_text_one(last);
        } else {
            lemma_split_matches_text(last.0, q, last.1);
        }
    }
}

/// Highlighting a unit-file line keeps its text, for any line without a
/// line break.
pub proof fn lemma_file_line_keeps_text(line: Seq<char>, continued_value: bool)
    requires
        forall|k: int| 0 <= k < line.len() ==> line[k] != '\n',
    ensures
        span_text(file_line_spans(line, continued_value)) == line,
{
    lemma_raw_spans_text(line);
    lemma_span_text_one((line, crate::display::comment_style()));
    lemma_span_text_one((line, crate::display::section_style()));
    lemma_span_text_one((line, crate::styles::with_fg(crate::styles::plain_style(), crate::models::Color::White)));
    let k = leading_ws(line) as int;
    proof_leading_bound(line);
    let rest = line.skip(k);
    let eq = first_index_of(rest, '=');
    crate::text::lemma_first_index_of_bounds(rest, '=');
    if eq >= 0 {
        let s = seq![
            (line.take(k), crate::styles::plain_style()),
            (rest.take(eq), crate::display::setting_key_style()),
            ("="@, crate::styles::with_fg(crate::styles::plain_style(), crate::models::Color::DarkGray)),
            (rest.skip(eq + 1), crate::styles::with_fg(crate::styles::plain_style(), crate::models::Color::White)),
        ];
        reveal_strlit("=");
        lemma_span_text_one(s[0]);
        lemma_span_text_append(seq![s[0]], seq![s[1]]);
        lemma_span_text_one(s[1]);
        lemma_span_text_append(seq![s[0]] + seq![s[1]], seq![s[2]]);
        lemma_span_text_one(s[2]);
        lemma_span_text_append(seq![s[0]] + seq![s[1]] + seq![s[2]], seq![s[3]]);
        lemma_span_text_one(s[3]);
        assert(s =~= seq![s[0]] + seq![s[1]] + seq![s[2]] + seq![s[3]]);
        assert(span_text(s) =~= line.take(k) + rest.take(eq) + "="@ + rest.skip(eq + 1));
        assert(rest[eq] == '=');
        assert(line.take(k) + rest.take(eq) + "="@ + rest.skip(eq + 1) =~= line);
    }
}

proof fn proof_leading_bound(s: Seq<char>)
    ensures
        leading_ws(s) <= s.len(),
    decreases s.len(),
{
    if s.len() > 0 && crate::text::is_white_space(s[0]) {
        proof_leading_bound(s.skip(1));
    }
}

proof fn lemma_split_no_newline(s: Seq<char>)
    requires
        forall|k: int| 0 <= k < s.len() ==> s[k] != '\n',
    ensures
        split_newlines(s) == seq![s],
    decreases s.len(),
{
    if s.len() > 0 {
        assert(s[s.len() - 1] != '\n');
        lemma_split_no_newline(s.drop_last());
        assert(s.drop_last().push(s.last()) =~= s);
        assert(seq![s.drop_last()].update(0, s.drop_last().push(s.last())) =~= seq![s]);
    } else {
        assert(s =~= Seq::<char>::empty());
    }
}

proof fn lemma_raw_spans_text(line: Seq<char>)
    requires
        forall|k: int| 0 <= k < line.len() ==> line[k] != '\n',
    ensures
        span_text(raw_spans(line)) == line,
{
    if line.len() > 0 {
        lemma_split_no_newline(line);
        assert(text_lines(line) =~= seq![line]);
        let r = raw_spans(line);
        assert(r =~= seq![(line, crate::styles::plain_style())]);
        lemma_span_text_one((line, crate::styles::plain_style()));
    } else {
        assert(raw_spans(line) =~= Seq::<(Seq<char>, SpanStyle)>::empty());
        assert(line =~= Seq::<char>::empty());
    }
}

/// Terminal output, once cleaned up, holds no carriage return.
pub proof fn lemma_unix_newlines_no_cr(s: Seq<char>)
    ensures
        forall|k: int| 0 <= k < unix_newlines(s).len() ==> unix_newlines(s)[k] != '\r',
    decreases s.len(),
{
    if s.len() > 0 {
        if s[0] == '\r' && s.len() >= 2 && s[1] == '\n' {
            lemma_unix_newlines_no_cr(s.skip(2));
        } else {
            lemma_unix_newlines_no_cr(s.skip(1));
        }
        let r = unix_newlines(s);
        assert forall|k: int| 0 <= k < r.len() implies r[k] != '\r' by {
            if k > 0 {
                if s[0] == '\r' && s.len() >= 2 && s[1] == '\n' {
                    assert(r[k] == unix_newlines(s.skip(2))[k - 1]);
                } else {
                    assert(r[k] == unix_newlines(s.skip(1))[k - 1]);
                }
            }
        }
    }
}

/// A clipped text is never wider than the room it was clipped to.
pub proof fn lemma_clipped_fits(value: Seq<char>, width: nat)
    ensures
        clipped(value, width).len() <= width,
{
    reveal_strlit("...");
}

/// A clipped line is never wider than the room it was clipped to.
pub proof fn lemma_clip_spans_fits(spans: Seq<(Seq<char>, SpanStyle)>, width: nat)
    ensures
        span_text(clip_spans(spans, width)).len() <= width,
    decreases spans.len(),
{
    reveal_strlit("...");
    if width > 0 && spans.len() > 0 {
        let text = spans[0].0;
        let style = spans[0].1;
        if text.len() <= width {
            lemma_clip_spans_fits(spans.skip(1), (width - text.len()) as nat);
            lemma_span_text_append(seq![(text, style)], clip_spans(spans.skip(1), (width - text.len()) as nat));
            lemma_span_text_one((text, style));
        } else {
            let c = clip_spans(spans, width);
            lemma_span_text_one(c[0]);
            assert(c == seq![c[0]]);
        }
    }
}

/// `n` / `N` always land on a match when there is one.
pub proof fn lemma_cycled_hit_is_hit(hits: Seq<usize>, current: usize, forward: bool)
    requires
        hits.len() > 0,
    ensures
        hits.contains(cycled_hit(hits, current, forward)),
{
    if forward {
        lemma_first_after_in(hits, current);
        if first_after(hits, current) is None {
            assert(hits[0] == hits[0]);
        }
    } else {
        lemma_last_before_in(hits, current);
        if last_before(hits, current) is None {
            assert(hits[hits.len() - 1] == hits.last());
        }
    }
}

proof fn lemma_first_after_in(hits: Seq<usize>, current: usize)
    ensures
        first_after(hits, current) matches Some(h) ==> hits.contains(h) && h > current,
    decreases hits.len(),
{
    if hits.len() > 0 && !(hits[0] > current) {
        lemma_first_after_in(hits.drop_first(), current);
        if let Some(h) = first_after(hits.drop_first(), current) {
            let k = choose|k: int| 0 <= k < hits.drop_first().len() && hits.drop_first()[k] == h;
            assert(hits[k + 1] == h);
        }
    } else if hits.len() > 0 {
        assert(hits[0] == hits[0]);
    }
}

proof fn lemma_last_before_in(hits: Seq<usize>, current: usize)
    ensures
        last_before(hits, current) matches Some(h) ==> hits.contains(h) && h < current,
    decreases hits.len(),
{
    if hits.len() > 0 && !(hits.last() < current) {
        lemma_last_before_in(hits.drop_last(), current);
        if let Some(h) = last_before(hits.drop_last(), current) {
            let k = choose|k: int| 0 <= k < hits.drop_last().len() && hits.drop_last()[k] == h;
            assert(hits[k] == h);
        }
    } else if hits.len() > 0 {
        assert(hits[hits.len() - 1] == hits.last());
    }
}

/// Line-wise selection never keeps more than two marks.
pub proof fn lemma_marks_stay_two(marks: Seq<usize>, i: usize)
    requires
        marks.len() <= 2,
    ensures
        toggled_marks(marks, i).len() <= 2,
{
    crate::search::lemma_first_position_bounds(marks, i);
}

/// A unit of a kind with no unit files always gets an enablement state
/// without asking systemd.
pub proof fn lemma_fileless_units_resolve(
    cache: Seq<(Seq<char>, Seq<char>, Seq<char>)>,
    states: Seq<(Seq<char>, Seq<char>)>,
    scope: Seq<char>,
    name: Seq<char>,
)
    requires
        !has_unit_file_suffix(name),
    ensures
        resolved_state(cache, states, scope, name) is Some,
{
}

/// After the unit list is filtered again, every unit it shows passes the
/// state filters and the search, and every unit that passes both is shown.
pub proof fn lemma_shown_units_pass(old: App, new: App)
    requires
        refilters(old, new),
    ensures
        forall|k: int| 0 <= k < new.filtered_units@.len() ==> {
            let u = old.units@[#[trigger] new.filtered_units@[k] as int];
            &&& new.filtered_units@[k] < old.units@.len()
            &&& passes_state_filters(old, u)
            &&& old.matches_search(u)
        },
        forall|i: usize| i < old.units@.len() && passes_state_filters(old, old.units@[i as int])
            && old.matches_search(old.units@[i as int]) ==> #[trigger] new.filtered_units@.contains(i),
{
    assert forall|k: int| 0 <= k < new.filtered_units@.len() implies {
        let u = old.units@[#[trigger] new.filtered_units@[k] as int];
        &&& new.filtered_units@[k] < old.units@.len()
        &&& passes_state_filters(old, u)
        &&& old.matches_search(u)
    } by {
        let i = new.filtered_units@[k];
        assert(new.filtered_units@.contains(i));
    }
}

/// Picking a log line and picking it again leaves the picked lines as
/// they were.
pub proof fn lemma_toggle_twice(s: Set<usize>, i: usize)
    ensures
        toggled_set(toggled_set(s, i), i) == s,
{
    if s.contains(i) {
        assert(toggled_set(toggled_set(s, i), i) =~= s);
    } else {
        assert(toggled_set(toggled_set(s, i), i) =~= s);
    }
}

proof fn lemma_increasing_first_is_least(a: Seq<usize>, k: int)
    requires
        strictly_increasing(a),
        0 < k < a.len(),
    ensures
        a[0] < a[k],
{
}

proof fn lemma_increasing_rest_set(a: Seq<usize>)
    requires
        strictly_increasing(a),
        a.len() > 0,
    ensures
        a.drop_first().to_set() == a.to_set().remove(a[0]),
        strictly_increasing(a.drop_first()),
{
    assert forall|x: usize| a.drop_first().to_set().contains(x) <==> a.to_set().remove(a[0]).contains(x) by {
        if a.drop_first().to_set().contains(x) {
            let k = choose|k: int| 0 <= k < a.drop_first().len() && a.drop_first()[k] == x;
            assert(a[k + 1] == x);
            assert(a.contains(x));
        }
        if a.to_set().remove(a[0]).contains(x) {
            let k = choose|k: int| 0 <= k < a.len() && a[k] == x;
            assert(k != 0);
            assert(a.drop_first()[k - 1] == x);
        }
    }
    assert(a.drop_first().to_set() =~= a.to_set().remove(a[0]));
}

/// A strictly increasing list of line positions is fixed by the set of its
/// entries: two such lists with the same entries are the same list.
pub proof fn lemma_increasing_determined_by_set(a: Seq<usize>, b: Seq<usize>)
    requires
        strictly_increasing(a),
        strictly_increasing(b),
        a.to_set() == b.to_set(),
    ensures
        a == b,
    decreases a.len(),
{
    if a.len() == 0 {
        if b.len() > 0 {
            assert(b.to_set().contains(b[0]));
            assert(!a.to_set().contains(b[0]));
        }
        assert(a =~= b);
    } else {
        assert(a.to_set().contains(a[0]));
        assert(b.contains(a[0]));
        assert(b.len() > 0);
        assert(b.to_set().contains(b[0]));
        assert(a.contains(b[0]));
        let ka = choose|k: int| 0 <= k < a.len() && a[k] == b[0];
        let kb = choose|k: int| 0 <= k < b.len() && b[k] == a[0];
        if ka > 0 {
            lemma_increasing_first_is_least(a, ka);
        }
        if kb > 0 {
            lemma_increasing_first_is_least(b, kb);
        }
        assert(a[0] == b[0]);
        lemma_increasing_rest_set(a);
        lemma_increasing_rest_set(b);
        lemma_increasing_determined_by_set(a.drop_first(), b.drop_first());
        assert(a =~= seq![a[0]] + a.drop_first());
        assert(b =~= seq![b[0]] + b.drop_first());
    }
}

/// Picking the highlighted log line twice gives back the same picked lines
/// and changes nothing else.
pub proof fn lemma_pick_line_twice(a: App, b: App, c: App)
    requires
        a.wf(),
        c.wf(),
        toggles_picked_line(a, b),
        toggles_picked_line(b, c),
    ensures
        c.selected_log_lines@ == a.selected_log_lines@,
        c == (App { selected_log_lines: c.selected_log_lines, ..a }),
{
    if let Some(i) = a.log_selected {
        lemma_toggle_twice(a.selected_log_lines@.to_set(), i);
        lemma_increasing_determined_by_set(c.selected_log_lines@, a.selected_log_lines@);
    }
}

/// Once a successful enable, disable, mask or unmask has emptied the cache,
/// a file-backed unit that the listing does not cover is asked about again.
pub proof fn lemma_emptied_cache_asks_again(
    states: Seq<(Seq<char>, Seq<char>)>,
    scope: Seq<char>,
    name: Seq<char>,
)
    requires
        has_unit_file_suffix(name),
        found_state(states, name) is None,
    ensures
        resolved_state(Seq::empty(), states, scope, name) is None,
{
    assert(cache_lookup(Seq::empty(), scope, name) is None);
}

/// Within one filter menu, two different values never ask for the same
/// hotkey, no value asks for `a` (which stands for "all"), and every hotkey
/// asked for is a small ASCII letter.
pub proof fn lemma_preferred_keys_distinct(menu: FilterMenu, v1: Seq<char>, v2: Seq<char>)
    requires
        v1 != v2,
    ensures
        forall|i: int, j: int|
            0 <= i < preferred_keys(menu, v1).len() && 0 <= j < preferred_keys(menu, v2).len()
                ==> #[trigger] preferred_keys(menu, v1)[i] != #[trigger] preferred_keys(menu, v2)[j],
        forall|i: int| 0 <= i < preferred_keys(menu, v1).len() ==> 'b' <= #[trigger] preferred_keys(menu, v1)[i] <= 'z',
{
}

/// A command name stands for the action whose `systemctl` verb it is, and
/// every action a key can ask for is reached from its own verb.
pub proof fn lemma_command_names_its_action(name: Seq<char>, action: UnitAction)
    ensures
        command_action(name) == Some(action) ==> action_verb(action) == name,
        action != UnitAction::ResetFailed ==> command_action(action_verb(action)) == Some(action),
{
    reveal_strlit("start");
    reveal_strlit("stop");
    reveal_strlit("restart");
    reveal_strlit("reload");
    reveal_strlit("enable");
    reveal_strlit("disable");
    reveal_strlit("mask");
    reveal_strlit("unmask");
    assert("start"@.len() != "stop"@.len());
    assert("start"@.len() != "restart"@.len());
    assert("start"@.len() != "reload"@.len());
    assert("start"@.len() != "enable"@.len());
    assert("start"@.len() != "disable"@.len());
    assert("start"@.len() != "mask"@.len());
    assert("start"@.len() != "unmask"@.len());
    assert("stop"@.len() != "restart"@.len());
    assert("stop"@.len() != "reload"@.len());
    assert("stop"@.len() != "enable"@.len());
    assert("stop"@.len() != "disable"@.len());
    assert("stop"@[0] != "mask"@[0]);
    assert("stop"@.len() != "unmask"@.len());
    assert("restart"@.len() != "reload"@.len());
    assert("restart"@.len() != "enable"@.len());
    assert("restart"@[0] != "disable"@[0]);
    assert("restart"@.len() != "mask"@.len());
    assert("restart"@.len() != "unmask"@.len());
    assert("reload"@[0] != "enable"@[0]);
    assert("reload"@.len() != "disable"@.len());
    assert("reload"@.len() != "mask"@.len());
    assert("reload"@[0] != "unmask"@[0]);
    assert("enable"@.len() != "disable"@.len());
    assert("enable"@.len() != "mask"@.len());
    assert("enable"@[0] != "unmask"@[0]);
    assert("disable"@.len() != "mask"@.len());
    assert("disable"@.len() != "unmask"@.len());
    assert("mask"@.len() != "unmask"@.len());
}

/// Paging the unit list moves the highlight by the view's height, stopping
/// at the ends of the list: paging down never moves the highlighted unit up,
/// and moves it further down unless it is already last or the view has no
/// height; paging up does the same upwards. Half pages move by half the
/// height, and single steps by one row.
pub proof fn lemma_paging_unit_list(old: App, action: NavAction, new: App, i: usize)
    requires
        navigates(old, action, new),
        old.view_mode == ViewMode::UnitList,
        old.list_selected == Some(i),
        i < old.filtered_units.len(),
    ensures
        new.list_selected is Some,
        action == NavAction::PageDown ==> {
            let j = new.list_selected.unwrap() as int;
            let h = old.last_area_height as int;
            &&& i <= j
            &&& j == i + h || j == old.filtered_units.len() - 1
            &&& h > 0 && i < old.filtered_units.len() - 1 ==> i < j
        },
        action == NavAction::PageUp ==> {
            let j = new.list_selected.unwrap() as int;
            let h = old.last_area_height as int;
            &&& j <= i
            &&& j + h == i || j == 0
            &&& h > 0 && i > 0 ==> j < i
        },
        action == NavAction::HalfPageDown ==> {
            let j = new.list_selected.unwrap() as int;
            let h = old.last_area_height as int / 2;
            &&& i <= j
            &&& j == i + h || j == old.filtered_units.len() - 1
        },
        action == NavAction::HalfPageUp ==> {
            let j = new.list_selected.unwrap() as int;
            let h = old.last_area_height as int / 2;
            &&& j <= i
            &&& j + h == i || j == 0
        },
        action == NavAction::Down ==> {
            let j = new.list_selected.unwrap() as int;
            j == i + 1 || (j == i && i == old.filtered_units.len() - 1)
        },
        action == NavAction::Up ==> {
            let j = new.list_selected.unwrap() as int;
            j + 1 == i || (j == i && i == 0)
        },
{
}

/// Paging the log view moves the highlighted line by the view's height,
/// stopping at the ends of the log: paging down never moves it up, and moves
/// it further down unless it is already last or the view has no height;
/// paging up does the same upwards. Half pages move by half the height, and
/// single steps by one line.
pub proof fn lemma_paging_log_view(old: App, action: NavAction, new: App, i: usize)
    requires
        navigates(old, action, new),
        old.view_mode == ViewMode::LogView,
        old.log_selected == Some(i),
        i < old.unit_logs.len(),
    ensures
        new.log_selected is Some,
        action == NavAction::PageDown ==> {
            let j = new.log_selected.unwrap() as int;
            let h = old.last_area_height as int;
            &&& i <= j
            &&& j == i + h || j == old.unit_logs.len() - 1
            &&& h > 0 && i < old.unit_logs.len() - 1 ==> i < j
        },
        action == NavAction::PageUp ==> {
            let j = new.log_selected.unwrap() as int;
            let h = old.last_area_height as int;
            &&& j <= i
            &&& j + h == i || j == 0
            &&& h > 0 && i > 0 ==> j < i
        },
        action == NavAction::HalfPageDown ==> {
            let j = new.log_selected.unwrap() as int;
            let h = old.last_area_height as int / 2;
            &&& i <= j
            &&& j == i + h || j == old.unit_logs.len() - 1
        },
        action == NavAction::HalfPageUp ==> {
            let j = new.log_selected.unwrap() as int;
            let h = old.last_area_height as int / 2;
            &&& j <= i
            &&& j + h == i || j == 0
        },
        action == NavAction::Down ==> {
            let j = new.log_selected.unwrap() as int;
            j == i + 1 || (j == i && i == old.unit_logs.len() - 1)
        },
        action == NavAction::Up ==> {
            let j = new.log_selected.unwrap() as int;
            j + 1 == i || (j == i && i == 0)
        },
{
}

/// After the unit list is filtered again, every unit shown has the scope,
/// active state, enablement state and load state that the set filters ask
/// for, and every unit that has them and matches the search is shown.
pub proof fn lemma_filters_keep_chosen_values(old: App, new: App)
    requires
        refilters(old, new),
    ensures
        forall|k: int| 0 <= k < new.filtered_units@.len() ==> {
            let u = old.units@[#[trigger] new.filtered_units@[k] as int];
            &&& old.scope_filter is Some ==> u.scope@ == old.scope_filter.unwrap()@
            &&& old.active_state_filter is Some ==> u.active_state@ == old.active_state_filter.unwrap()@
            &&& old.enablement_state_filter is Some ==> u.enablement_state@ == old.enablement_state_filter.unwrap()@
            &&& old.load_state_filter is Some ==> u.load_state@ == old.load_state_filter.unwrap()@
        },
        forall|i: usize| {
            let u = old.units@[i as int];
            &&& i < old.units@.len()
            &&& old.scope_filter is Some ==> u.scope@ == old.scope_filter.unwrap()@
            &&& old.active_state_filter is Some ==> u.active_state@ == old.active_state_filter.unwrap()@
            &&& old.enablement_state_filter is Some ==> u.enablement_state@ == old.enablement_state_filter.unwrap()@
            &&& old.load_state_filter is Some ==> u.load_state@ == old.load_state_filter.unwrap()@
            &&& old.matches_search(u)
        } ==> #[trigger] new.filtered_units@.contains(i),
{
    lemma_shown_units_pass(old, new);
}

/// The search runs on a unit's name, a space and its description: with a
/// query, after the unit list is filtered again, a unit that passes the
/// state filters is shown exactly when the query fuzzy-matches that text, so
/// a query that matches only the description still finds the unit.
pub proof fn lemma_search_covers_description(old: App, new: App)
    requires
        refilters(old, new),
        old.search_query@.len() > 0,
    ensures
        forall|i: usize| i < old.units@.len() && passes_state_filters(old, old.units@[i as int]) ==> (
            #[trigger] new.filtered_units@.contains(i) <==> fuzzy_score(
                old.units@[i as int].name@ + " "@ + old.units@[i as int].description@,
                old.search_query@,
            ) is Some),
{
    lemma_shown_units_pass(old, new);
    assert forall|i: usize| i < old.units@.len() && passes_state_filters(old, old.units@[i as int])
        && #[trigger] new.filtered_units@.contains(i) implies fuzzy_score(
        old.units@[i as int].name@ + " "@ + old.units@[i as int].description@,
        old.search_query@,
    ) is Some by {
        let k = choose|k: int| 0 <= k < new.filtered_units@.len() && new.filtered_units@[k] == i;
        assert(new.filtered_units@[k] == i);
    }
}

} // verus!
