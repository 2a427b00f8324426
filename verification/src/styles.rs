//! Styled text as the terminal front end draws it: spans of text with a
//! style, lines of spans, and the operations on them (merging styles,
//! clipping to a width, marking search matches).
use vstd::prelude::*;
use crate::models::Color;
use crate::text::{chars_of, contains, contains_seq, find_from, occurs_at, push_str, string_of_range};

verus! {

/// Bold text.
pub const BOLD: u16 = 0x001;
/// Dimmed text.
pub const DIM: u16 = 0x002;
/// Italic text.
pub const ITALIC: u16 = 0x004;
/// Underlined text.
pub const UNDERLINED: u16 = 0x008;
/// Slowly blinking text.
pub const SLOW_BLINK: u16 = 0x010;
/// Rapidly blinking text.
pub const RAPID_BLINK: u16 = 0x020;
/// Foreground and background swapped.
pub const REVERSED: u16 = 0x040;
/// Hidden text.
pub const HIDDEN: u16 = 0x080;
/// Crossed-out text.
pub const CROSSED_OUT: u16 = 0x100;

/// How a piece of text is drawn: colours where set, the modifiers it adds and
/// the modifiers it takes away from what it is drawn over.
#[derive(Debug, Clone, Copy, PartialEq, Eq, Structural)]
pub struct SpanStyle {
    pub fg: Option<Color>,
    pub bg: Option<Color>,
    pub add_modifier: u16,
    pub sub_modifier: u16,
}

/// The style that changes nothing.
pub open spec fn plain_style() -> SpanStyle {
    SpanStyle { fg: None, bg: None, add_modifier: 0, sub_modifier: 0 }
}

/// `s` with foreground colour `c`.
pub open spec fn with_fg(s: SpanStyle, c: Color) -> SpanStyle {
    SpanStyle { fg: Some(c), bg: s.bg, add_modifier: s.add_modifier, sub_modifier: s.sub_modifier }
}

/// `s` with background colour `c`.
pub open spec fn with_bg(s: SpanStyle, c: Color) -> SpanStyle {
    SpanStyle { fg: s.fg, bg: Some(c), add_modifier: s.add_modifier, sub_modifier: s.sub_modifier }
}

/// `s` adding the modifiers `m` (and no longer taking them away).
pub open spec fn with_modifier(s: SpanStyle, m: u16) -> SpanStyle {
    SpanStyle { fg: s.fg, bg: s.bg, add_modifier: s.add_modifier | m, sub_modifier: s.sub_modifier & !m }
}

/// `s` with `o` laid over it: `o`'s colours where it sets them, and `o`'s
/// modifier changes applied after `s`'s.
pub open spec fn patched(s: SpanStyle, o: SpanStyle) -> SpanStyle {
    SpanStyle {
        fg: if o.fg is Some { o.fg } else { s.fg },
        bg: if o.bg is Some { o.bg } else { s.bg },
        add_modifier: (s.add_modifier & !o.sub_modifier) | o.add_modifier,
        sub_modifier: (s.sub_modifier & !o.add_modifier) | o.sub_modifier,
    }
}

impl SpanStyle {
    /// The style that changes nothing.
    pub fn new() -> (r: SpanStyle)
        ensures
            r == plain_style(),
    {
        SpanStyle { fg: None, bg: None, add_modifier: 0, sub_modifier: 0 }
    }

    /// This style with foreground colour `c`.
    pub fn fg(self, c: Color) -> (r: SpanStyle)
        ensures
            r == with_fg(self, c),
    {
        SpanStyle { fg: Some(c), bg: self.bg, add_modifier: self.add_modifier, sub_modifier: self.sub_modifier }
    }

    /// This style with background colour `c`.
    pub fn bg(self, c: Color) -> (r: SpanStyle)
        ensures
            r == with_bg(self, c),
    {
        SpanStyle { fg: self.fg, bg: Some(c), add_modifier: self.add_modifier, sub_modifier: self.sub_modifier }
    }

    /// This style adding the modifiers `m`.
    pub fn add_modifier(self, m: u16) -> (r: SpanStyle)
        ensures
            r == with_modifier(self, m),
    {
        SpanStyle {
            fg: self.fg,
            bg: self.bg,
            add_modifier: self.add_modifier | m,
            sub_modifier: self.sub_modifier & !m,
        }
    }

    /// This style with `other` laid over it.
    pub fn patch(self, other: SpanStyle) -> (r: SpanStyle)
        ensures
            r == patched(self, other),
    {
        SpanStyle {
            fg: if other.fg.is_some() { other.fg } else { self.fg },
            bg: if other.bg.is_some() { other.bg } else { self.bg },
            add_modifier: (self.add_modifier & !other.sub_modifier) | other.add_modifier,
            sub_modifier: (self.sub_modifier & !other.add_modifier) | other.sub_modifier,
        }
    }
}

/// Key names in help and action lines: cyan, bold.
pub fn keybind_style() -> (r: SpanStyle)
    ensures
        r == with_modifier(with_fg(plain_style(), Color::Cyan), BOLD),
{
    SpanStyle::new().fg(Color::Cyan).add_modifier(BOLD)
}

/// The highlighted row of a list: dark grey background.
pub fn selection_style() -> (r: SpanStyle)
    ensures
        r == with_bg(plain_style(), Color::DarkGray),
{
    SpanStyle::new().bg(Color::DarkGray)
}

/// Accents: cyan.
pub fn accent_style() -> (r: SpanStyle)
    ensures
        r == with_fg(plain_style(), Color::Cyan),
{
    SpanStyle::new().fg(Color::Cyan)
}

/// A search query: the accent style.
pub fn search_query_style() -> (r: SpanStyle)
    ensures
        r == with_fg(plain_style(), Color::Cyan),
{
    accent_style()
}

/// The character under the search cursor: black on yellow, bold.
pub fn search_cursor_style() -> (r: SpanStyle)
    ensures
        r == with_modifier(with_fg(with_bg(plain_style(), Color::Yellow), Color::Black), BOLD),
{
    SpanStyle::new().bg(Color::Yellow).fg(Color::Black).add_modifier(BOLD)
}

/// A search match: black on yellow.
pub open spec fn match_style() -> SpanStyle {
    with_fg(with_bg(plain_style(), Color::Yellow), Color::Black)
}

/// A search match: black on yellow.
pub fn search_match_style() -> (r: SpanStyle)
    ensures
        r == match_style(),
{
    SpanStyle::new().bg(Color::Yellow).fg(Color::Black)
}

/// Borders of modal dialogs: the accent style.
pub fn modal_border_style() -> (r: SpanStyle)
    ensures
        r == with_fg(plain_style(), Color::Cyan),
{
    accent_style()
}

/// Section headers: the key-name style.
pub fn section_header_style() -> (r: SpanStyle)
    ensures
        r == with_modifier(with_fg(plain_style(), Color::Cyan), BOLD),
{
    keybind_style()
}

/// A piece of text drawn in one style.
pub struct StyledSpan {
    pub text: String,
    pub style: SpanStyle,
}

impl View for StyledSpan {
    type V = (Seq<char>, SpanStyle);

    open spec fn view(&self) -> (Seq<char>, SpanStyle) {
        (self.text@, self.style)
    }
}

impl StyledSpan {
    /// `text` in `style`.
    pub fn styled(text: &str, style: SpanStyle) -> (r: StyledSpan)
        ensures
            r@ == (text@, style),
    {
        StyledSpan { text: text.to_string(), style }
    }

    /// `text` in the plain style.
    pub fn raw(text: &str) -> (r: StyledSpan)
        ensures
            r@ == (text@, plain_style()),
    {
        StyledSpan { text: text.to_string(), style: SpanStyle::new() }
    }
}

/// The views of a vector of spans.
pub open spec fn span_views(v: Seq<StyledSpan>) -> Seq<(Seq<char>, SpanStyle)> {
    v.map_values(|s: StyledSpan| s@)
}

/// One line of spans, with a style laid under all of them.
pub struct StyledLine {
    pub spans: Vec<StyledSpan>,
    pub style: SpanStyle,
}

impl View for StyledLine {
    type V = (Seq<(Seq<char>, SpanStyle)>, SpanStyle);

    open spec fn view(&self) -> (Seq<(Seq<char>, SpanStyle)>, SpanStyle) {
        (span_views(self.spans@), self.style)
    }
}

pub(crate) fn push_span(spans: &mut Vec<StyledSpan>, text: &str, style: SpanStyle)
    ensures
        span_views(final(spans)@) == span_views(old(spans)@).push((text@, style)),
{
    spans.push(StyledSpan::styled(text, style));
    assert(span_views(spans@) =~= span_views(old(spans)@).push((text@, style)));
}

/// A line of the given spans in the plain style.
pub fn line_of(spans: Vec<StyledSpan>) -> (r: StyledLine)
    ensures
        r@ == (span_views(spans@), plain_style()),
{
    StyledLine { spans, style: SpanStyle::new() }
}

/// The spans of at most `remaining` characters that a line shows: whole
/// spans while they fit; the span that does not fit cut to the room left,
/// ending in `"..."` when more than three characters of room are left.
pub open spec fn clip_spans(spans: Seq<(Seq<char>, SpanStyle)>, remaining: nat) -> Seq<(Seq<char>, SpanStyle)>
    decreases spans.len(),
{
    if remaining == 0 || spans.len() == 0 {
        Seq::empty()
    } else {
        let text = spans[0].0;
        let style = spans[0].1;
        if text.len() <= remaining {
            seq![(text, style)] + clip_spans(spans.skip(1), (remaining - text.len()) as nat)
        } else if remaining <= 3 {
            seq![(text.take(remaining as int), style)]
        } else {
            seq![(text.take(remaining - 3) + "..."@, style)]
        }
    }
}

/// Clips a line to `width` characters; the clipped line has the plain style.
pub fn clip_line(line: StyledLine, width: usize) -> (r: StyledLine)
    ensures
        r@ == (clip_spans(line@.0, width as nat), plain_style()),
{
    let ghost spans = line@.0;
    let mut out: Vec<StyledSpan> = Vec::new();
    let mut remaining = width;
    let mut i: usize = 0;
    let mut done = false;
    assert(spans.skip(0) == spans);
    while i < line.spans.len() && remaining > 0 && !done
        invariant
            i <= line.spans.len(),
            spans == span_views(line.spans@),
            !done ==> clip_spans(spans, width as nat) == span_views(out@) + clip_spans(spans.skip(i as int), remaining as nat),
            done ==> clip_spans(spans, width as nat) == span_views(out@),
        decreases line.spans.len() - i, (if done { 0int } else { 1int }),
    {
        let ghost rest = spans.skip(i as int);
        let ghost before = span_views(out@);
        assert(rest[0] == line.spans@[i as int]@);
        let text = line.spans[i].text.as_str();
        let style = line.spans[i].style;
        let v = chars_of(text);
        let width_of_text = v.len();
        if width_of_text <= remaining {
            push_span(&mut out, text, style);
            proof {
                assert(rest.skip(1) == spans.skip(i + 1));
                assert(clip_spans(rest, remaining as nat) == seq![rest[0]] + clip_spans(
                    rest.skip(1),
                    (remaining - width_of_text) as nat,
                ));
                assert(span_views(out@) + clip_spans(spans.skip(i + 1), (remaining - width_of_text) as nat)
                    =~= before + clip_spans(rest, remaining as nat));
            }
            remaining = remaining - width_of_text;
            i += 1;
        } else if remaining <= 3 {
            let cut = string_of_range(&v, 0, remaining);
            push_span(&mut out, cut.as_str(), style);
            proof {
                assert(cut@ =~= text@.take(remaining as int));
                assert(span_views(out@) =~= before + clip_spans(rest, remaining as nat));
            }
            done = true;
        } else {
            let mut cut = string_of_range(&v, 0, remaining - 3);
            push_str(&mut cut, "...");
            push_span(&mut out, cut.as_str(), style);
            proof {
                assert(cut@ =~= text@.take(remaining - 3) + "..."@);
                assert(span_views(out@) =~= before + clip_spans(rest, remaining as nat));
            }
            done = true;
        }
    }
    proof {
        if !done {
            assert(clip_spans(spans.skip(i as int), remaining as nat) == Seq::<(Seq<char>, SpanStyle)>::empty());
            assert(span_views(out@) + Seq::<(Seq<char>, SpanStyle)>::empty() =~= span_views(out@));
        }
    }
    line_of(out)
}

/// The position of the first occurrence of `pat` in `s`, or -1.
pub open spec fn first_occurrence(s: Seq<char>, pat: Seq<char>) -> int
    decreases s.len(),
{
    if occurs_at(s, pat, 0) {
        0
    } else if s.len() == 0 {
        -1
    } else {
        let r = first_occurrence(s.skip(1), pat);
        if r < 0 {
            -1
        } else {
            r + 1
        }
    }
}

proof fn lemma_occurs_skip(s: Seq<char>, pat: Seq<char>, from: int, j: int)
    requires
        0 <= from <= s.len(),
        0 <= j,
    ensures
        occurs_at(s.skip(from), pat, j) == occurs_at(s, pat, from + j),
{
    if from + j + pat.len() <= s.len() {
        assert(s.skip(from).subrange(j, j + pat.len()) =~= s.subrange(from + j, from + j + pat.len()));
    }
}

proof fn lemma_first_occurrence_at(s: Seq<char>, pat: Seq<char>, i: int)
    requires
        occurs_at(s, pat, i),
        forall|j: int| 0 <= j < i ==> !occurs_at(s, pat, j),
    ensures
        first_occurrence(s, pat) == i,
    decreases i,
{
    if i > 0 {
        assert(!occurs_at(s, pat, 0));
        assert forall|j: int| 0 <= j < i - 1 implies !occurs_at(s.skip(1), pat, j) by {
            lemma_occurs_skip(s, pat, 1, j);
        }
        lemma_occurs_skip(s, pat, 1, i - 1);
        lemma_first_occurrence_at(s.skip(1), pat, i - 1);
    }
}

proof fn lemma_first_occurrence_none(s: Seq<char>, pat: Seq<char>)
    requires
        forall|j: int| 0 <= j ==> !occurs_at(s, pat, j),
    ensures
        first_occurrence(s, pat) == -1,
    decreases s.len(),
{
    assert(!occurs_at(s, pat, 0));
    if s.len() > 0 {
        assert forall|j: int| 0 <= j implies !occurs_at(s.skip(1), pat, j) by {
            lemma_occurs_skip(s, pat, 1, j);
        }
        lemma_first_occurrence_none(s.skip(1), pat);
    }
}

/// The first occurrence, when there is one, is an occurrence.
pub proof fn lemma_first_occurrence_bounds(s: Seq<char>, pat: Seq<char>)
    ensures
        first_occurrence(s, pat) >= 0 ==> occurs_at(s, pat, first_occurrence(s, pat)),
        first_occurrence(s, pat) >= -1,
    decreases s.len(),
{
    if !occurs_at(s, pat, 0) && s.len() > 0 {
        lemma_first_occurrence_bounds(s.skip(1), pat);
        let r = first_occurrence(s.skip(1), pat);
        if r >= 0 {
            lemma_occurs_skip(s, pat, 1, r);
        }
    }
}

/// The pieces a span's text `t` is cut into around the occurrences of `q`
/// (first to last, not overlapping): the text between them in the span's
/// style, each occurrence in that style with the match style laid over it;
/// empty pieces are left out.
pub open spec fn split_matches(t: Seq<char>, q: Seq<char>, st: SpanStyle) -> Seq<(Seq<char>, SpanStyle)>
    decreases t.len(),
{
    if q.len() == 0 {
        seq![(t, st)]
    } else {
        let p = first_occurrence(t, q);
        proof {
            lemma_first_occurrence_bounds(t, q);
        }
        if p < 0 {
            if t.len() > 0 {
                seq![(t, st)]
            } else {
                Seq::empty()
            }
        } else {
            let before: Seq<(Seq<char>, SpanStyle)> = if p > 0 {
                seq![(t.take(p), st)]
            } else {
                Seq::empty()
            };
            before + seq![(q, patched(st, match_style()))] + split_matches(t.skip(p + q.len()), q, st)
        }
    }
}

/// The spans one span becomes when the matches of `q` are marked: itself
/// when `q` is empty or does not occur in it.
pub open spec fn span_pieces(span: (Seq<char>, SpanStyle), q: Seq<char>) -> Seq<(Seq<char>, SpanStyle)> {
    if q.len() == 0 || !contains_seq(span.0, q) {
        seq![span]
    } else {
        split_matches(span.0, q, span.1)
    }
}

/// The spans of a line with the matches of `q` marked, span by span.
pub open spec fn highlight_spans(spans: Seq<(Seq<char>, SpanStyle)>, q: Seq<char>) -> Seq<(Seq<char>, SpanStyle)>
    decreases spans.len(),
{
    if spans.len() == 0 {
        Seq::empty()
    } else {
        highlight_spans(spans.drop_last(), q) + span_pieces(spans.last(), q)
    }
}

fn split_span(text: &str, style: SpanStyle, query: &str, out: &mut Vec<StyledSpan>)
    requires
        query@.len() > 0,
    ensures
        span_views(final(out)@) == span_views(old(out)@) + split_matches(text@, query@, style),
{
    let v = chars_of(text);
    let qv = chars_of(query);
    let ghost t = text@;
    let ghost q = query@;
    let ghost start = span_views(out@);
    let mut pos: usize = 0;
    let mut done = false;
    assert(t.skip(0) == t);
    while !done
        invariant
            v@ == t,
            qv@ == q,
            text@ == t,
            query@ == q,
            q.len() > 0,
            pos <= v.len(),
            !done ==> start + split_matches(t, q, style) == span_views(out@) + split_matches(t.skip(pos as int), q, style),
            done ==> start + split_matches(t, q, style) == span_views(out@),
        decreases v.len() - pos, (if done { 0int } else { 1int }),
    {
        let ghost rest = t.skip(pos as int);
        let ghost before = span_views(out@);
        proof {
            lemma_first_occurrence_bounds(rest, q);
        }
        match find_from(&v, &qv, pos) {
            Some(j) => {
                proof {
                    lemma_occurs_skip(t, q, pos as int, j - pos);
                    assert forall|k: int| 0 <= k < j - pos implies !occurs_at(rest, q, k) by {
                        lemma_occurs_skip(t, q, pos as int, k);
                    }
                    lemma_first_occurrence_at(rest, q, j - pos);
                }
                if j > pos {
                    let piece = string_of_range(&v, pos, j);
                    push_span(out, piece.as_str(), style);
                    assert(piece@ =~= rest.take(j - pos));
                }
                let ghost mid = span_views(out@);
                push_span(out, query, style.patch(search_match_style()));
                proof {
                    assert(rest.skip(j - pos + q.len()) =~= t.skip(j + q.len()));
                    assert(first_occurrence(rest, q) == j - pos);
                    let head: Seq<(Seq<char>, SpanStyle)> = if j > pos {
                        seq![(rest.take(j - pos), style)]
                    } else {
                        Seq::empty()
                    };
                    assert(split_matches(rest, q, style) == head + seq![(q, patched(style, match_style()))]
                        + split_matches(rest.skip(j - pos + q.len()), q, style));
                    if j > pos {
                        assert(mid == before.push((rest.take(j - pos), style)));
                    } else {
                        assert(mid == before);
                    }
                    assert(span_views(out@) == mid.push((q, patched(style, match_style()))));
                    assert(span_views(out@) + split_matches(t.skip(j + q.len()), q, style) =~= before
                        + split_matches(rest, q, style));
                }
                pos = j + qv.len();
            },
            None => {
                proof {
                    assert forall|k: int| 0 <= k implies !occurs_at(rest, q, k) by {
                        lemma_occurs_skip(t, q, pos as int, k);
                    }
                    lemma_first_occurrence_none(rest, q);
                }
                if pos < v.len() {
                    let piece = string_of_range(&v, pos, v.len());
                    push_span(out, piece.as_str(), style);
                    assert(piece@ =~= rest);
                    assert(span_views(out@) =~= before + split_matches(rest, q, style));
                } else {
                    assert(rest.len() == 0);
                    assert(before + split_matches(rest, q, style) =~= before);
                }
                done = true;
            },
        }
    }
}

/// Marks every occurrence of `query` in the spans of a line with the match
/// style; the marked line has the plain style.
pub fn highlight_exact_match(line: StyledLine, query: &str) -> (r: StyledLine)
    ensures
        r@ == (highlight_spans(line@.0, query@), plain_style()),
{
    let ghost spans = line@.0;
    let mut out: Vec<StyledSpan> = Vec::new();
    let mut i: usize = 0;
    while i < line.spans.len()
        invariant
            i <= line.spans.len(),
            spans == span_views(line.spans@),
            span_views(out@) == highlight_spans(spans.take(i as int), query@),
        decreases line.spans.len() - i,
    {
        let ghost before = span_views(out@);
        proof {
            assert(spans.take(i + 1).drop_last() == spans.take(i as int));
            assert(spans.take(i + 1).last() == line.spans@[i as int]@);
        }
        let text = line.spans[i].text.as_str();
        let style = line.spans[i].style;
        if query.is_empty() || !contains(text, query) {
            push_span(&mut out, text, style);
            assert(span_views(out@) =~= before + span_pieces((text@, style), query@));
        } else {
            split_span(text, style, query, &mut out);
        }
        i += 1;
    }
    assert(spans.take(line.spans.len() as int) == spans);
    line_of(out)
}

/// Bold italic, laid over the lines picked in the log view.
pub open spec fn emphasis() -> SpanStyle {
    with_modifier(with_modifier(plain_style(), BOLD), ITALIC)
}

/// A line with bold italic laid over its style and over each span.
pub open spec fn emphasized(line: (Seq<(Seq<char>, SpanStyle)>, SpanStyle)) -> (Seq<(Seq<char>, SpanStyle)>, SpanStyle) {
    (
        line.0.map_values(|span: (Seq<char>, SpanStyle)| (span.0, patched(span.1, emphasis()))),
        patched(line.1, emphasis()),
    )
}

/// Lays bold italic over a line and each of its spans.
pub fn apply_selected_style(line: StyledLine) -> (r: StyledLine)
    ensures
        r@ == emphasized(line@),
{
    let bold = SpanStyle::new().add_modifier(BOLD).add_modifier(ITALIC);
    let mut spans: Vec<StyledSpan> = Vec::new();
    let mut i: usize = 0;
    while i < line.spans.len()
        invariant
            i <= line.spans.len(),
            bold == emphasis(),
            spans.len() == i,
            forall|k: int| 0 <= k < i ==> #[trigger] spans@[k]@ == (line.spans@[k]@.0, patched(
                line.spans@[k]@.1,
                emphasis(),
            )),
        decreases line.spans.len() - i,
    {
        let span = StyledSpan::styled(line.spans[i].text.as_str(), line.spans[i].style.patch(bold));
        spans.push(span);
        i += 1;
    }
    let r = StyledLine { spans, style: line.style.patch(bold) };
    assert(r@.0 =~= emphasized(line@).0);
    r
}

} // verus!
