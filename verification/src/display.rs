//! What the screens show, as styled lines: the rows of the unit list, the
//! highlighted unit file, the lines of the log view, the header segments and
//! the filter menus. The terminal front end only lays them out and draws them.
use vstd::prelude::*;
use crate::ansi::{ansi_line, ansi_styled_line};
use crate::bindings::{horizontal_split, split_horizontally, split_vertically, vertical_split, Area};
use crate::commands::{decimal, decimal_string};
use crate::models::{
    active_state_color, enablement_state_color, load_state_color, parse_active_state,
    parse_active_state_label, parse_enablement_state, parse_enablement_state_label, parse_load_state,
    parse_load_state_label, parse_scope, parse_scope_label, scope_color, Color, UnitInfo,
};
use crate::state::{App, FilterMenuOption, ViewMode};
use crate::styles::{
    clip_line, clip_spans, emphasized, apply_selected_style, highlight_exact_match, highlight_spans,
    keybind_style, line_of, plain_style, push_span, span_views, with_fg, with_bg, with_modifier, SpanStyle,
    StyledLine, StyledSpan, BOLD, ITALIC,
};
use crate::text::{
    chars_of, contains, contains_seq, first_index_of, first_position, has_suffix, is_white_space, lines,
    push_char, push_str, string_of_range, text_lines, views, white_space, ends_with,
};

verus! {

/// `n` spaces.
pub open spec fn spaces(n: nat) -> Seq<char> {
    Seq::new(n, |i: int| ' ')
}

fn push_spaces(s: &mut String, n: usize)
    ensures
        final(s)@ == old(s)@ + spaces(n as nat),
{
    let mut i: usize = 0;
    while i < n
        invariant
            i <= n,
            s@ == old(s)@ + spaces(i as nat),
        decreases n - i,
    {
        push_char(s, ' ');
        assert(s@ =~= old(s)@ + spaces((i + 1) as nat));
        i += 1;
    }
}

/// A text cut to `width` characters: kept whole when it fits, else its first
/// `width - 3` characters and `"..."`, or just its first `width` characters
/// when `width` is three or less.
pub open spec fn clipped(value: Seq<char>, width: nat) -> Seq<char> {
    if value.len() <= width {
        value
    } else if width <= 3 {
        value.take(width as int)
    } else {
        value.take(width - 3) + "..."@
    }
}

/// Cuts a text to `width` characters.
pub fn clip_text(value: &str, width: usize) -> (r: String)
    ensures
        r@ == clipped(value@, width as nat),
{
    let v = chars_of(value);
    if v.len() <= width {
        return value.to_string();
    }
    if width <= 3 {
        let r = string_of_range(&v, 0, width);
        assert(r@ =~= value@.take(width as int));
        return r;
    }
    let mut r = string_of_range(&v, 0, width - 3);
    push_str(&mut r, "...");
    r
}

/// How a text sits in a cell wider than it.
#[derive(Debug, Clone, Copy, PartialEq, Eq, Structural)]
pub enum CellAlign {
    Left,
    Center,
}

/// A text clipped to `width` and padded with spaces to exactly `width`
/// characters: on the right, or split around it (the extra space on the right).
pub open spec fn formatted_cell(value: Seq<char>, width: nat, align: CellAlign) -> Seq<char> {
    if width == 0 {
        Seq::empty()
    } else {
        let c = clipped(value, width);
        let padding = (width - c.len()) as nat;
        match align {
            CellAlign::Left => c + spaces(padding),
            CellAlign::Center => spaces(padding / 2) + c + spaces((padding - padding / 2) as nat),
        }
    }
}

/// Fits a text into a column of `width` characters.
pub fn format_cell(value: &str, width: usize, align: CellAlign) -> (r: String)
    ensures
        r@ == formatted_cell(value@, width as nat, align),
        width > 0 ==> r@.len() == width,
{
    if width == 0 {
        return String::new();
    }
    let clipped_text = clip_text(value, width);
    let clipped_width = chars_of(clipped_text.as_str()).len();
    proof {
        reveal_strlit("...");
        assert(clipped_text@.len() <= width);
    }
    let padding = if width > clipped_width { width - clipped_width } else { 0 };
    match align {
        CellAlign::Left => {
            let mut r = clipped_text;
            push_spaces(&mut r, padding);
            assert(r@ =~= formatted_cell(value@, width as nat, align));
            r
        },
        CellAlign::Center => {
            let left = padding / 2;
            let right = padding - left;
            let mut r = String::new();
            push_spaces(&mut r, left);
            push_str(&mut r, clipped_text.as_str());
            push_spaces(&mut r, right);
            assert(r@ =~= spaces(left as nat) + clipped_text@ + spaces(right as nat));
            r
        },
    }
}

/// The colour of a scope label: that of the scope it names, white for others.
pub open spec fn label_scope_color(label: Seq<char>) -> Color {
    match parse_scope(label) {
        Some(x) => scope_color(x),
        None => Color::White,
    }
}

/// The colour of an active-state label: that of the state it names, white for others.
pub open spec fn label_active_color(label: Seq<char>) -> Color {
    match parse_active_state(label) {
        Some(x) => active_state_color(x),
        None => Color::White,
    }
}

/// The colour of an enablement-state label: that of the state it names, white for others.
pub open spec fn label_enablement_color(label: Seq<char>) -> Color {
    match parse_enablement_state(label) {
        Some(x) => enablement_state_color(x),
        None => Color::White,
    }
}

/// The colour of a load-state label: that of the state it names, white for others.
pub open spec fn label_load_color(label: Seq<char>) -> Color {
    match parse_load_state(label) {
        Some(x) => load_state_color(x),
        None => Color::White,
    }
}

/// The colour a scope label is drawn in.
pub fn scope_color_of(label: &str) -> (r: Color)
    ensures
        r == label_scope_color(label@),
{
    match parse_scope_label(label) {
        Some(x) => x.color(),
        None => Color::White,
    }
}

/// The colour an active-state label is drawn in.
pub fn active_state_color_of(label: &str) -> (r: Color)
    ensures
        r == label_active_color(label@),
{
    match parse_active_state_label(label) {
        Some(x) => x.color(),
        None => Color::White,
    }
}

/// The colour an enablement-state label is drawn in.
pub fn enablement_state_color_of(label: &str) -> (r: Color)
    ensures
        r == label_enablement_color(label@),
{
    match parse_enablement_state_label(label) {
        Some(x) => x.color(),
        None => Color::White,
    }
}

/// The colour a load-state label is drawn in.
pub fn load_state_color_of(label: &str) -> (r: Color)
    ensures
        r == label_load_color(label@),
{
    match parse_load_state_label(label) {
        Some(x) => x.color(),
        None => Color::White,
    }
}

/// Bold.
pub open spec fn bold_style() -> SpanStyle {
    with_modifier(plain_style(), BOLD)
}

/// Key names: cyan, bold.
pub open spec fn key_style() -> SpanStyle {
    with_modifier(with_fg(plain_style(), Color::Cyan), BOLD)
}

/// The active state and, in brackets, the sub-state of a unit.
pub open spec fn active_with_sub(unit: UnitInfo) -> Seq<char> {
    unit.active_state@ + " ("@ + unit.sub_state@ + ")"@
}

/// The cells of a unit's row: name, scope, active state, enablement state
/// and load state, each in its column width and colour.
pub open spec fn row_cells(unit: UnitInfo, widths: Seq<usize>) -> Seq<(Seq<char>, SpanStyle)> {
    seq![
        (formatted_cell(unit.name@, widths[0] as nat, CellAlign::Left), bold_style()),
        (formatted_cell(unit.scope@, widths[1] as nat, CellAlign::Center), with_fg(plain_style(), label_scope_color(unit.scope@))),
        (formatted_cell(active_with_sub(unit), widths[2] as nat, CellAlign::Center), with_fg(plain_style(), label_active_color(unit.active_state@))),
        (formatted_cell(unit.enablement_state@, widths[3] as nat, CellAlign::Center), with_fg(plain_style(), label_enablement_color(unit.enablement_state@))),
        (formatted_cell(unit.load_state@, widths[4] as nat, CellAlign::Center), with_fg(plain_style(), label_load_color(unit.load_state@))),
    ]
}

/// The detail line of the selected unit: its description and object path.
pub open spec fn detail_spans(unit: UnitInfo) -> Seq<(Seq<char>, SpanStyle)> {
    seq![
        (" ╟  "@, plain_style()),
        ("Description: "@, bold_style()),
        (unit.description@, with_fg(plain_style(), Color::Gray)),
        ("   "@, plain_style()),
        ("Path: "@, bold_style()),
        (unit.path@, with_fg(plain_style(), Color::Gray)),
    ]
}

/// The action line of the selected unit: the keys of the unit commands.
pub open spec fn action_spans() -> Seq<(Seq<char>, SpanStyle)> {
    seq![
        (" ╙  "@, plain_style()),
        ("Actions: "@, bold_style()),
        ("l"@, key_style()), (" logs   "@, plain_style()),
        ("f"@, key_style()), (" unit file   "@, plain_style()),
        ("s"@, key_style()), (" start   "@, plain_style()),
        ("t"@, key_style()), (" stop   "@, plain_style()),
        ("r"@, key_style()), (" restart   "@, plain_style()),
        ("R"@, key_style()), (" reload   "@, plain_style()),
        ("e"@, key_style()), (" enable   "@, plain_style()),
        ("d"@, key_style()), (" disable   "@, plain_style()),
        ("m"@, key_style()), (" mask   "@, plain_style()),
        ("u"@, key_style()), (" unmask"@, plain_style()),
    ]
}

/// The views of a vector of lines.
pub open spec fn line_views(v: Seq<StyledLine>) -> Seq<(Seq<(Seq<char>, SpanStyle)>, SpanStyle)> {
    v.map_values(|l: StyledLine| l@)
}

/// The lines of a unit's row: its cells; for the selected row also the
/// detail line and the action line, each clipped to the content width.
pub open spec fn unit_row_lines(unit: UnitInfo, widths: Seq<usize>, content_width: nat, is_selected: bool) -> Seq<(Seq<(Seq<char>, SpanStyle)>, SpanStyle)> {
    let first = seq![(row_cells(unit, widths), plain_style())];
    if is_selected {
        first + seq![
            (clip_spans(detail_spans(unit), content_width), plain_style()),
            (clip_spans(action_spans(), content_width), plain_style()),
        ]
    } else {
        first
    }
}

fn action_line() -> (r: StyledLine)
    ensures
        r@ == (action_spans(), plain_style()),
{
    let plain = SpanStyle::new();
    let key = keybind_style();
    let bold = SpanStyle::new().add_modifier(BOLD);
    let mut spans: Vec<StyledSpan> = Vec::new();
    push_span(&mut spans, " ╙  ", plain);
    push_span(&mut spans, "Actions: ", bold);
    push_span(&mut spans, "l", key);
    push_span(&mut spans, " logs   ", plain);
    push_span(&mut spans, "f", key);
    push_span(&mut spans, " unit file   ", plain);
    push_span(&mut spans, "s", key);
    push_span(&mut spans, " start   ", plain);
    push_span(&mut spans, "t", key);
    push_span(&mut spans, " stop   ", plain);
    push_span(&mut spans, "r", key);
    push_span(&mut spans, " restart   ", plain);
    push_span(&mut spans, "R", key);
    push_span(&mut spans, " reload   ", plain);
    push_span(&mut spans, "e", key);
    push_span(&mut spans, " enable   ", plain);
    push_span(&mut spans, "d", key);
    push_span(&mut spans, " disable   ", plain);
    push_span(&mut spans, "m", key);
    push_span(&mut spans, " mask   ", plain);
    push_span(&mut spans, "u", key);
    push_span(&mut spans, " unmask", plain);
    assert(span_views(spans@) =~= action_spans());
    line_of(spans)
}

/// The lines drawn for one unit of the list.
pub fn format_unit_row(unit: &UnitInfo, widths: &[usize; 5], content_width: usize, is_selected: bool) -> (r: Vec<StyledLine>)
    ensures
        line_views(r@) == unit_row_lines(*unit, widths@, content_width as nat, is_selected),
{
    let plain = SpanStyle::new();
    let bold = SpanStyle::new().add_modifier(BOLD);
    let mut active_sub = unit.active_state.clone();
    push_str(&mut active_sub, " (");
    push_str(&mut active_sub, unit.sub_state.as_str());
    push_str(&mut active_sub, ")");
    let mut cells: Vec<StyledSpan> = Vec::new();
    let c0 = format_cell(unit.name.as_str(), widths[0], CellAlign::Left);
    push_span(&mut cells, c0.as_str(), bold);
    let c1 = format_cell(unit.scope.as_str(), widths[1], CellAlign::Center);
    push_span(&mut cells, c1.as_str(), SpanStyle::new().fg(scope_color_of(unit.scope.as_str())));
    let c2 = format_cell(active_sub.as_str(), widths[2], CellAlign::Center);
    push_span(&mut cells, c2.as_str(), SpanStyle::new().fg(active_state_color_of(unit.active_state.as_str())));
    let c3 = format_cell(unit.enablement_state.as_str(), widths[3], CellAlign::Center);
    push_span(
        &mut cells,
        c3.as_str(),
        SpanStyle::new().fg(enablement_state_color_of(unit.enablement_state.as_str())),
    );
    let c4 = format_cell(unit.load_state.as_str(), widths[4], CellAlign::Center);
    push_span(&mut cells, c4.as_str(), SpanStyle::new().fg(load_state_color_of(unit.load_state.as_str())));
    assert(span_views(cells@) =~= row_cells(*unit, widths@));
    let mut lines: Vec<StyledLine> = Vec::new();
    lines.push(line_of(cells));
    if is_selected {
        let gray = SpanStyle::new().fg(Color::Gray);
        let mut detail: Vec<StyledSpan> = Vec::new();
        push_span(&mut detail, " ╟  ", plain);
        push_span(&mut detail, "Description: ", bold);
        push_span(&mut detail, unit.description.as_str(), gray);
        push_span(&mut detail, "   ", plain);
        push_span(&mut detail, "Path: ", bold);
        push_span(&mut detail, unit.path.as_str(), gray);
        assert(span_views(detail@) =~= detail_spans(*unit));
        lines.push(clip_line(line_of(detail), content_width));
        lines.push(clip_line(action_line(), content_width));
    }
    assert(line_views(lines@) =~= unit_row_lines(*unit, widths@, content_width as nat, is_selected));
    lines
}

/// The number of white-space characters `s` starts with.
pub open spec fn leading_ws(s: Seq<char>) -> nat
    decreases s.len(),
{
    if s.len() > 0 && is_white_space(s[0]) {
        1 + leading_ws(s.skip(1))
    } else {
        0
    }
}

/// The number of white-space characters `s` ends with.
pub open spec fn trailing_ws(s: Seq<char>) -> nat
    decreases s.len(),
{
    if s.len() > 0 && is_white_space(s.last()) {
        1 + trailing_ws(s.drop_last())
    } else {
        0
    }
}

/// `s` without white space at its end (`str::trim_end`).
pub open spec fn trim_end_ws(s: Seq<char>) -> Seq<char> {
    s.take(s.len() - trailing_ws(s))
}

/// `s` without white space at either end (`str::trim`).
pub open spec fn trim_ws(s: Seq<char>) -> Seq<char> {
    trim_end_ws(s.skip(leading_ws(s) as int))
}

proof fn lemma_leading_ws_bound(s: Seq<char>)
    ensures
        leading_ws(s) <= s.len(),
        forall|k: int| 0 <= k < leading_ws(s) ==> is_white_space(#[trigger] s[k]),
        leading_ws(s) < s.len() ==> !is_white_space(s[leading_ws(s) as int]),
    decreases s.len(),
{
    if s.len() > 0 && is_white_space(s[0]) {
        lemma_leading_ws_bound(s.skip(1));
        assert forall|k: int| 0 <= k < leading_ws(s) implies is_white_space(#[trigger] s[k]) by {
            if k > 0 {
                assert(s[k] == s.skip(1)[k - 1]);
            }
        }
    }
}

proof fn lemma_trailing_ws_bound(s: Seq<char>)
    ensures
        trailing_ws(s) <= s.len(),
    decreases s.len(),
{
    if s.len() > 0 && is_white_space(s.last()) {
        lemma_trailing_ws_bound(s.drop_last());
    }
}

proof fn lemma_leading_all(s: Seq<char>)
    requires
        forall|k: int| 0 <= k < s.len() ==> is_white_space(#[trigger] s[k]),
    ensures
        leading_ws(s) == s.len(),
    decreases s.len(),
{
    if s.len() > 0 {
        assert forall|k: int| 0 <= k < s.len() - 1 implies is_white_space(#[trigger] s.skip(1)[k]) by {
            assert(s.skip(1)[k] == s[k + 1]);
        }
        lemma_leading_all(s.skip(1));
    }
}

proof fn lemma_trailing_stops(t: Seq<char>, j: int)
    requires
        0 <= j < t.len(),
        !is_white_space(t[j]),
    ensures
        trailing_ws(t) <= t.len() - 1 - j,
    decreases t.len(),
{
    if j < t.len() - 1 {
        assert(t.drop_last()[j] == t[j]);
        lemma_trailing_stops(t.drop_last(), j);
    }
}

/// A text of white space only trims to nothing.
pub proof fn lemma_trim_blank(s: Seq<char>)
    requires
        forall|k: int| 0 <= k < s.len() ==> is_white_space(#[trigger] s[k]),
    ensures
        trim_ws(s).len() == 0,
{
    lemma_leading_all(s);
    assert(s.skip(s.len() as int).len() == 0);
}

/// A text with a character other than white space does not trim to nothing.
pub proof fn lemma_trim_nonblank(s: Seq<char>, i: int)
    requires
        0 <= i < s.len(),
        !is_white_space(s[i]),
    ensures
        trim_ws(s).len() > 0,
{
    lemma_leading_ws_bound(s);
    let l = leading_ws(s) as int;
    assert(l <= i) by {
        if l > i {
            assert(is_white_space(s[i]));
        }
    }
    let t = s.skip(l);
    assert(t[i - l] == s[i]);
    lemma_trailing_stops(t, i - l);
}

fn count_leading_ws(v: &Vec<char>) -> (n: usize)
    ensures
        n == leading_ws(v@),
{
    let mut i: usize = 0;
    assert(v@.skip(0) == v@);
    while i < v.len() && white_space(v[i])
        invariant
            i <= v.len(),
            leading_ws(v@) == i + leading_ws(v@.skip(i as int)),
        decreases v.len() - i,
    {
        assert(v@.skip(i as int).skip(1) == v@.skip(i + 1));
        i += 1;
    }
    i
}

fn count_trailing_ws(v: &Vec<char>) -> (n: usize)
    ensures
        n == trailing_ws(v@),
{
    let mut i: usize = v.len();
    assert(v@.take(i as int) == v@);
    while i > 0 && white_space(v[i - 1])
        invariant
            i <= v.len(),
            trailing_ws(v@) == (v.len() - i) + trailing_ws(v@.take(i as int)),
        decreases i,
    {
        assert(v@.take(i as int).drop_last() == v@.take(i - 1));
        i -= 1;
    }
    i = v.len() - i;
    i
}

/// Whether a unit-file line continues on the next one: it ends in a
/// backslash once trailing white space is taken off.
pub open spec fn continues(line: Seq<char>) -> bool {
    has_suffix(trim_end_ws(line), "\\"@)
}

/// Whether a unit-file line continues on the next one.
pub fn line_continues(line: &str) -> (r: bool)
    ensures
        r == continues(line@),
{
    let v = chars_of(line);
    let t = count_trailing_ws(&v);
    proof { lemma_trailing_ws_bound(v@); }
    let end = v.len() - t;
    proof {
        reveal_strlit("\\");
        assert(trim_end_ws(v@) =~= v@.take(end as int));
    }
    if end == 0 {
        return false;
    }
    proof {
        let te = trim_end_ws(v@);
        assert(te.skip(te.len() - 1) =~= seq![v@[end - 1]]);
        assert("\\"@ =~= seq!['\\']);
        if v@[end - 1] == '\\' {
            assert(te.skip(te.len() - 1) =~= "\\"@);
        } else {
            assert(te.skip(te.len() - 1)[0] != "\\"@[0]);
        }
    }
    v[end - 1] == '\\'
}

/// The spans of a text made into a line (`Line::from`): one plain span per
/// line of it.
pub open spec fn raw_spans(s: Seq<char>) -> Seq<(Seq<char>, SpanStyle)> {
    text_lines(s).map_values(|l: Seq<char>| (l, plain_style()))
}

pub(crate) fn raw_line(s: &str) -> (r: StyledLine)
    ensures
        r@ == (raw_spans(s@), plain_style()),
{
    let ls = lines(s);
    let mut spans: Vec<StyledSpan> = Vec::new();
    let mut i: usize = 0;
    while i < ls.len()
        invariant
            i <= ls.len(),
            views(ls@) == text_lines(s@),
            spans.len() == i,
            forall|k: int| 0 <= k < i ==> #[trigger] spans@[k]@ == (ls@[k]@, plain_style()),
        decreases ls.len() - i,
    {
        spans.push(StyledSpan::raw(ls[i].as_str()));
        i += 1;
    }
    assert(span_views(spans@) =~= raw_spans(s@));
    line_of(spans)
}

/// Comments: dark grey, italic.
pub open spec fn comment_style() -> SpanStyle {
    with_modifier(with_fg(plain_style(), Color::DarkGray), ITALIC)
}

/// Section headers: cyan, bold.
pub open spec fn section_style() -> SpanStyle {
    with_modifier(with_fg(plain_style(), Color::Cyan), BOLD)
}

/// Keys of key=value lines: yellow, bold.
pub open spec fn setting_key_style() -> SpanStyle {
    with_modifier(with_fg(plain_style(), Color::Yellow), BOLD)
}

/// The spans of a unit-file line: blank lines as they are; comments (first
/// non-blank character `#` or `;`) and `[Section]` headers whole in their
/// style; a line continuing a value whole in white; `key=value` lines split
/// into indentation, key, `=` and value; anything else as it is.
pub open spec fn file_line_spans(line: Seq<char>, continued_value: bool) -> Seq<(Seq<char>, SpanStyle)> {
    let t = trim_ws(line);
    if t.len() == 0 {
        raw_spans(line)
    } else if t[0] == '#' || t[0] == ';' {
        seq![(line, comment_style())]
    } else if t[0] == '[' && t.last() == ']' {
        seq![(line, section_style())]
    } else if continued_value {
        seq![(line, with_fg(plain_style(), Color::White))]
    } else {
        let k = leading_ws(line) as int;
        let rest = line.skip(k);
        let eq = first_index_of(rest, '=');
        if eq >= 0 {
            seq![
                (line.take(k), plain_style()),
                (rest.take(eq), setting_key_style()),
                ("="@, with_fg(plain_style(), Color::DarkGray)),
                (rest.skip(eq + 1), with_fg(plain_style(), Color::White)),
            ]
        } else {
            raw_spans(line)
        }
    }
}

fn single_span_line(text: &str, style: SpanStyle) -> (r: StyledLine)
    ensures
        r@ == (seq![(text@, style)], plain_style()),
{
    let mut spans: Vec<StyledSpan> = Vec::new();
    push_span(&mut spans, text, style);
    assert(span_views(spans@) =~= seq![(text@, style)]);
    line_of(spans)
}

/// Highlights one line of a unit file.
pub fn highlight_unit_file_line(line: &str, continued_value: bool) -> (r: StyledLine)
    ensures
        r@ == (file_line_spans(line@, continued_value), plain_style()),
{
    let v = chars_of(line);
    let lead = count_leading_ws(&v);
    proof { lemma_leading_ws_bound(v@); }
    let rest = string_of_range(&v, lead, v.len());
    let rv = chars_of(rest.as_str());
    let trail = count_trailing_ws(&rv);
    proof {
        lemma_trailing_ws_bound(rv@);
        assert(rv@ =~= v@.skip(lead as int));
    }
    let tlen = rv.len() - trail;
    if tlen == 0 {
        return raw_line(line);
    }
    let first = rv[0];
    let last = rv[tlen - 1];
    proof {
        let t = trim_ws(v@);
        assert(t =~= rv@.take(tlen as int));
        assert(t[0] == first);
        assert(t.last() == last);
    }
    if first == '#' || first == ';' {
        return single_span_line(line, SpanStyle::new().fg(Color::DarkGray).add_modifier(ITALIC));
    }
    if first == '[' && last == ']' {
        return single_span_line(line, SpanStyle::new().fg(Color::Cyan).add_modifier(BOLD));
    }
    if continued_value {
        return single_span_line(line, SpanStyle::new().fg(Color::White));
    }
    match first_position(&rv, '=') {
        Some(eq) => {
            let mut spans: Vec<StyledSpan> = Vec::new();
            let indent = string_of_range(&v, 0, lead);
            push_span(&mut spans, indent.as_str(), SpanStyle::new());
            let key = string_of_range(&rv, 0, eq);
            push_span(&mut spans, key.as_str(), SpanStyle::new().fg(Color::Yellow).add_modifier(BOLD));
            push_span(&mut spans, "=", SpanStyle::new().fg(Color::DarkGray));
            let value = string_of_range(&rv, eq + 1, rv.len());
            push_span(&mut spans, value.as_str(), SpanStyle::new().fg(Color::White));
            proof {
                assert(indent@ =~= v@.take(lead as int));
                assert(key@ =~= rv@.take(eq as int));
                assert(value@ =~= rv@.skip(eq + 1));
                assert(span_views(spans@) =~= file_line_spans(line@, continued_value));
            }
            line_of(spans)
        },
        None => raw_line(line),
    }
}

/// The highlighted lines of a unit file: each line is a continued value when
/// the line before it continues.
pub open spec fn highlighted_file(content: Seq<char>) -> Seq<(Seq<(Seq<char>, SpanStyle)>, SpanStyle)> {
    let ls = text_lines(content);
    Seq::new(ls.len(), |i: int| (file_line_spans(ls[i], i > 0 && continues(ls[i - 1])), plain_style()))
}

/// Highlights a whole unit file, line by line.
pub fn highlight_unit_file(content: &str) -> (r: Vec<StyledLine>)
    ensures
        line_views(r@) == highlighted_file(content@),
{
    let ls = lines(content);
    let ghost expected = highlighted_file(content@);
    let mut out: Vec<StyledLine> = Vec::new();
    let mut continued_value = false;
    let mut i: usize = 0;
    while i < ls.len()
        invariant
            i <= ls.len(),
            views(ls@) == text_lines(content@),
            expected == highlighted_file(content@),
            out.len() == i,
            continued_value == (i > 0 && continues(ls@[i - 1]@)),
            forall|k: int| 0 <= k < i ==> #[trigger] out@[k]@ == expected[k],
        decreases ls.len() - i,
    {
        let highlighted = highlight_unit_file_line(ls[i].as_str(), continued_value);
        out.push(highlighted);
        continued_value = line_continues(ls[i].as_str());
        i += 1;
    }
    assert(line_views(out@) =~= expected);
    out
}

/// The marker in front of log line `i`: in line-wise select mode, where the
/// line sits in the picked range; in select mode, whether the line is
/// picked; nothing otherwise.
pub open spec fn log_marker(app: App, range: Option<(usize, usize)>, i: usize) -> (Seq<char>, SpanStyle) {
    let green = with_fg(plain_style(), Color::Green);
    if app.visual_line_select {
        match range {
            Some((start, end)) => if start == end && i == start {
                ("┣ "@, green)
            } else if i == start {
                ("┏ "@, green)
            } else if i == end {
                ("┗ "@, green)
            } else if start <= i <= end {
                ("┃ "@, green)
            } else {
                ("┋ "@, plain_style())
            },
            None => ("┋ "@, plain_style()),
        }
    } else if app.visual_select {
        if app.selected_log_lines@.contains(i) {
            ("☑ "@, green)
        } else {
            ("☐ "@, plain_style())
        }
    } else {
        (Seq::empty(), plain_style())
    }
}

/// Whether log line `i` is drawn bold: it lies in the picked range in
/// line-wise select mode, or is picked otherwise.
pub open spec fn log_line_bold(app: App, range: Option<(usize, usize)>, i: usize) -> bool {
    if app.visual_line_select {
        match range {
            Some((start, end)) => start <= i <= end,
            None => false,
        }
    } else {
        app.selected_log_lines@.contains(i)
    }
}

/// Log line `i` as the log view draws it: the line as parsed from its escape
/// sequences, with the matches of the log search marked when the raw line
/// holds the query, bold italic when picked, after its marker.
pub open spec fn log_view_line_spec(
    app: App,
    i: usize,
    raw: Seq<char>,
    parsed: (Seq<(Seq<char>, SpanStyle)>, SpanStyle),
) -> (Seq<(Seq<char>, SpanStyle)>, SpanStyle) {
    let range = crate::search::mark_range(app.selected_log_line_marks@);
    let q = app.log_search_query@;
    let searched = if q.len() > 0 && contains_seq(raw, q) {
        (highlight_spans(parsed.0, q), plain_style())
    } else {
        parsed
    };
    let styled = if log_line_bold(app, range, i) {
        emphasized(searched)
    } else {
        searched
    };
    (seq![log_marker(app, range, i)] + styled.0, styled.1)
}

fn picked(v: &Vec<usize>, i: usize) -> (r: bool)
    ensures
        r == v@.contains(i),
{
    let mut k: usize = 0;
    while k < v.len()
        invariant
            k <= v.len(),
            forall|j: int| 0 <= j < k ==> v@[j] != i,
        decreases v.len() - k,
    {
        if v[k] == i {
            return true;
        }
        k += 1;
    }
    false
}

impl App {
    /// The marker in front of log line `i`.
    pub fn log_line_marker(&self, i: usize) -> (r: StyledSpan)
        ensures
            r@ == log_marker(*self, crate::search::mark_range(self.selected_log_line_marks@), i),
    {
        let range = self.selected_log_line_range();
        let green = SpanStyle::new().fg(Color::Green);
        if self.visual_line_select {
            match range {
                Some((start, end)) => {
                    if start == end && i == start {
                        StyledSpan::styled("┣ ", green)
                    } else if i == start {
                        StyledSpan::styled("┏ ", green)
                    } else if i == end {
                        StyledSpan::styled("┗ ", green)
                    } else if start <= i && i <= end {
                        StyledSpan::styled("┃ ", green)
                    } else {
                        StyledSpan::raw("┋ ")
                    }
                },
                None => StyledSpan::raw("┋ "),
            }
        } else if self.visual_select {
            if picked(&self.selected_log_lines, i) {
                StyledSpan::styled("☑ ", green)
            } else {
                StyledSpan::raw("☐ ")
            }
        } else {
            let r = StyledSpan::raw("");
            proof { reveal_strlit(""); }
            assert(r@.0 =~= Seq::<char>::empty());
            r
        }
    }

    /// Log line `i`, whose raw text is `raw`, as the log view draws it: read
    /// from its escape sequences by ansi-to-tui, then marked.
    pub fn log_view_line(&self, i: usize, raw: &str) -> (r: StyledLine)
        ensures
            r@ == log_view_line_spec(*self, i, raw@, ansi_line(raw@)),
    {
        let parsed = ansi_styled_line(raw);
        self.mark_log_line(i, raw, parsed)
    }

    /// Log line `i`, whose raw text is `raw` and which reads as `parsed` once
    /// its escape sequences are turned into styles, as the log view draws it.
    pub fn mark_log_line(&self, i: usize, raw: &str, parsed: StyledLine) -> (r: StyledLine)
        ensures
            r@ == log_view_line_spec(*self, i, raw@, parsed@),
    {
        let range = self.selected_log_line_range();
        let query = self.log_search_query.as_str();
        let searched = if !query.is_empty() && contains(raw, query) {
            highlight_exact_match(parsed, query)
        } else {
            parsed
        };
        let bold = if self.visual_line_select {
            match range {
                Some((start, end)) => start <= i && i <= end,
                None => false,
            }
        } else {
            picked(&self.selected_log_lines, i)
        };
        let styled = if bold {
            apply_selected_style(searched)
        } else {
            searched
        };
        let marker = self.log_line_marker(i);
        let mut spans: Vec<StyledSpan> = Vec::new();
        let ghost mv = marker@;
        spans.push(marker);
        let ghost rest = styled@.0;
        let mut k: usize = 0;
        let StyledLine { spans: body, style } = styled;
        while k < body.len()
            invariant
                k <= body.len(),
                span_views(body@) == rest,
                span_views(spans@) == seq![mv] + rest.take(k as int),
            decreases body.len() - k,
        {
            let s = StyledSpan::styled(body[k].text.as_str(), body[k].style);
            assert(rest[k as int] == body@[k as int]@);
            assert(s@ == rest[k as int]);
            let ghost old_views = span_views(spans@);
            spans.push(s);
            assert(span_views(spans@) =~= old_views.push(rest[k as int]));
            assert(rest.take(k + 1) =~= rest.take(k as int).push(rest[k as int]));
            assert(span_views(spans@) =~= seq![mv] + rest.take(k + 1));
            k += 1;
        }
        assert(rest.take(body.len() as int) == rest);
        StyledLine { spans, style }
    }
}

/// The percentages of the unit list's columns and of the header's segments:
/// name or search, scope, active state, enablement state, load state.
pub open spec fn column_percents() -> Seq<u16> {
    seq![30u16, 15u16, 18u16, 18u16, 19u16]
}

/// The widths of the unit list's columns in a row `total_width` wide, as the
/// layout splits it.
pub fn unit_row_column_widths(total_width: u16) -> (r: [usize; 5])
    ensures
        r@ == horizontal_split((0, 0, total_width, 1), column_percents()).map_values(|a: Area| a.2 as usize),
{
    let percents: Vec<u16> = vec![30u16, 15u16, 18u16, 18u16, 19u16];
    assert(percents@ =~= column_percents());
    let columns = split_horizontally((0, 0, total_width, 1), &percents);
    let r = [
        columns[0].2 as usize,
        columns[1].2 as usize,
        columns[2].2 as usize,
        columns[3].2 as usize,
        columns[4].2 as usize,
    ];
    assert(r@ =~= horizontal_split((0, 0, total_width, 1), column_percents()).map_values(|a: Area| a.2 as usize));
    r
}

/// A dialog's area: `percent_y` of the height and `percent_x` of the width
/// of `area`, centred, the margins split evenly.
pub open spec fn centered_area(percent_x: u16, percent_y: u16, area: Area) -> Area {
    let my = ((100 - percent_y) / 2) as u16;
    let mx = ((100 - percent_x) / 2) as u16;
    let middle = vertical_split(area, seq![my, percent_y, my])[1];
    horizontal_split(middle, seq![mx, percent_x, mx])[1]
}

/// The area of a centred dialog.
pub fn centered_rect(percent_x: u16, percent_y: u16, area: Area) -> (r: Area)
    requires
        percent_x <= 100,
        percent_y <= 100,
    ensures
        r == centered_area(percent_x, percent_y, area),
{
    let my = (100 - percent_y) / 2;
    let mx = (100 - percent_x) / 2;
    let rows: Vec<u16> = vec![my, percent_y, my];
    let middle = split_vertically(area, &rows)[1];
    assert(rows@ =~= seq![my, percent_y, my]);
    let cols: Vec<u16> = vec![mx, percent_x, mx];
    assert(cols@ =~= seq![mx, percent_x, mx]);
    split_horizontally(middle, &cols)[1]
}

/// The areas of the header's segments: search, scope, active state,
/// enablement state, load state.
pub fn header_segment_areas(area: Area) -> (r: Vec<Area>)
    ensures
        r@ == horizontal_split(area, column_percents()),
        r.len() == 5,
{
    let percents: Vec<u16> = vec![30u16, 15u16, 18u16, 18u16, 19u16];
    assert(percents@ =~= column_percents());
    split_horizontally(area, &percents)
}

/// The areas of the three help columns.
pub fn help_column_areas(area: Area) -> (r: Vec<Area>)
    ensures
        r@ == horizontal_split(area, seq![33u16, 34u16, 33u16]),
        r.len() == 3,
{
    let percents: Vec<u16> = vec![33u16, 34u16, 33u16];
    assert(percents@ =~= seq![33u16, 34u16, 33u16]);
    split_horizontally(area, &percents)
}

} // verus!
