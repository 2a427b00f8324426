//! Log lines with terminal escape sequences, read into styled lines: the spans
//! that ansi-to-tui finds, with the colour names and modifier bits it reports
//! turned into the library's styles.
use vstd::prelude::*;
use crate::bindings::{ansi_lines, parse_ansi};
use crate::models::Color;
use crate::styles::{line_of, plain_style, push_span, span_views, SpanStyle, StyledLine, StyledSpan};
use crate::commands::{decimal, digit_char};
use crate::terminal::{all_digits, digits_value, is_digit, parse_u64, parsed_u64, unsigned_digits};
use crate::text::{chars_of, lines, str_eq, text_lines, views};

verus! {

/// One span as ansi-to-tui reads it, in plain values: its text, the names
/// ratatui gives its foreground and background colours, and the bits of the
/// modifiers it adds and takes away.
pub struct AnsiSpan {
    pub text: String,
    pub fg: Option<String>,
    pub bg: Option<String>,
    pub add_modifier: u16,
    pub sub_modifier: u16,
}

/// The characters of an optional string.
pub open spec fn opt_view(s: Option<String>) -> Option<Seq<char>> {
    match s {
        Some(t) => Some(t@),
        None => None,
    }
}

impl View for AnsiSpan {
    type V = (Seq<char>, Option<Seq<char>>, Option<Seq<char>>, u16, u16);

    open spec fn view(&self) -> (Seq<char>, Option<Seq<char>>, Option<Seq<char>>, u16, u16) {
        (self.text@, opt_view(self.fg), opt_view(self.bg), self.add_modifier, self.sub_modifier)
    }
}

/// The views of the spans of each line.
pub open spec fn nested_ansi_views(v: Seq<Vec<AnsiSpan>>) -> Seq<Seq<(Seq<char>, Option<Seq<char>>, Option<Seq<char>>, u16, u16)>> {
    v.map_values(|line: Vec<AnsiSpan>| line@.map_values(|s: AnsiSpan| s@))
}

/// The view of what the parser gave back.
pub open spec fn parse_view(p: Option<Vec<Vec<AnsiSpan>>>) -> Option<Seq<Seq<(Seq<char>, Option<Seq<char>>, Option<Seq<char>>, u16, u16)>>> {
    match p {
        Some(v) => Some(nested_ansi_views(v@)),
        None => None,
    }
}

/// The value of a hexadecimal digit.
pub open spec fn hex_value(c: char) -> Option<u8> {
    if '0' <= c && c <= '9' {
        Some((c as u32 - '0' as u32) as u8)
    } else if 'A' <= c && c <= 'F' {
        Some((c as u32 - 'A' as u32 + 10) as u8)
    } else if 'a' <= c && c <= 'f' {
        Some((c as u32 - 'a' as u32 + 10) as u8)
    } else {
        None
    }
}

/// The byte written by the two hexadecimal digits at `i` and `i + 1`.
pub open spec fn hex_byte(s: Seq<char>, i: int) -> Option<u8> {
    match (hex_value(s[i]), hex_value(s[i + 1])) {
        (Some(h), Some(l)) => Some((16 * h + l) as u8),
        _ => None,
    }
}

/// The colour that ratatui names `name` when it writes one out: one of the
/// sixteen named colours or `Reset`, `#` and six hexadecimal digits for a
/// 24-bit colour, or the decimal index of a palette entry.
pub open spec fn color_named(name: Seq<char>) -> Option<Color> {
    if name == "Reset"@ {
        Some(Color::Reset)
    } else if name == "Black"@ {
        Some(Color::Black)
    } else if name == "Red"@ {
        Some(Color::Red)
    } else if name == "Green"@ {
        Some(Color::Green)
    } else if name == "Yellow"@ {
        Some(Color::Yellow)
    } else if name == "Blue"@ {
        Some(Color::Blue)
    } else if name == "Magenta"@ {
        Some(Color::Magenta)
    } else if name == "Cyan"@ {
        Some(Color::Cyan)
    } else if name == "Gray"@ {
        Some(Color::Gray)
    } else if name == "DarkGray"@ {
        Some(Color::DarkGray)
    } else if name == "LightRed"@ {
        Some(Color::LightRed)
    } else if name == "LightGreen"@ {
        Some(Color::LightGreen)
    } else if name == "LightYellow"@ {
        Some(Color::LightYellow)
    } else if name == "LightBlue"@ {
        Some(Color::LightBlue)
    } else if name == "LightMagenta"@ {
        Some(Color::LightMagenta)
    } else if name == "LightCyan"@ {
        Some(Color::LightCyan)
    } else if name == "White"@ {
        Some(Color::White)
    } else if name.len() == 7 && name[0] == '#' {
        match (hex_byte(name, 1), hex_byte(name, 3), hex_byte(name, 5)) {
            (Some(r), Some(g), Some(b)) => Some(Color::Rgb(r, g, b)),
            _ => None,
        }
    } else {
        match parsed_u64(name) {
            Some(n) => if n <= 255 {
                Some(Color::Indexed(n as u8))
            } else {
                None
            },
            None => None,
        }
    }
}

/// The colour of an optional colour name; none where the name is unknown.
pub open spec fn color_of_name(name: Option<Seq<char>>) -> Option<Color> {
    match name {
        Some(n) => color_named(n),
        None => None,
    }
}

/// A span read by the parser, as a styled span.
pub open spec fn styled_ansi_span(sp: (Seq<char>, Option<Seq<char>>, Option<Seq<char>>, u16, u16)) -> (Seq<char>, SpanStyle) {
    (sp.0, SpanStyle { fg: color_of_name(sp.1), bg: color_of_name(sp.2), add_modifier: sp.3, sub_modifier: sp.4 })
}

/// A log line as the log view draws it before marking: the spans of the
/// first line the parser reads from it (none when it reads no line), in the
/// plain line style; when the parser reports an error, one plain span for
/// each line of the raw text.
pub open spec fn line_from_parse(
    raw: Seq<char>,
    parsed: Option<Seq<Seq<(Seq<char>, Option<Seq<char>>, Option<Seq<char>>, u16, u16)>>>,
) -> (Seq<(Seq<char>, SpanStyle)>, SpanStyle) {
    match parsed {
        Some(ls) => (
            if ls.len() > 0 {
                ls[0].map_values(|sp: (Seq<char>, Option<Seq<char>>, Option<Seq<char>>, u16, u16)| styled_ansi_span(sp))
            } else {
                Seq::empty()
            },
            plain_style(),
        ),
        None => (text_lines(raw).map_values(|l: Seq<char>| (l, plain_style())), plain_style()),
    }
}

/// A log line read from its escape sequences.
pub open spec fn ansi_line(raw: Seq<char>) -> (Seq<(Seq<char>, SpanStyle)>, SpanStyle) {
    line_from_parse(raw, ansi_lines(raw))
}

fn hex_digit_value(c: char) -> (r: Option<u8>)
    ensures
        r == hex_value(c),
{
    if '0' <= c && c <= '9' {
        Some((c as u32 - '0' as u32) as u8)
    } else if 'A' <= c && c <= 'F' {
        Some((c as u32 - 'A' as u32 + 10) as u8)
    } else if 'a' <= c && c <= 'f' {
        Some((c as u32 - 'a' as u32 + 10) as u8)
    } else {
        None
    }
}

fn hex_pair(v: &Vec<char>, i: usize) -> (r: Option<u8>)
    requires
        i + 1 < v.len(),
    ensures
        r == hex_byte(v@, i as int),
{
    match (hex_digit_value(v[i]), hex_digit_value(v[i + 1])) {
        (Some(h), Some(l)) => Some(h * 16 + l),
        _ => None,
    }
}

/// The colour that ratatui names `name`.
pub fn color_from_name(name: &str) -> (r: Option<Color>)
    ensures
        r == color_named(name@),
{
    if str_eq(name, "Reset") {
        Some(Color::Reset)
    } else if str_eq(name, "Black") {
        Some(Color::Black)
    } else if str_eq(name, "Red") {
        Some(Color::Red)
    } else if str_eq(name, "Green") {
        Some(Color::Green)
    } else if str_eq(name, "Yellow") {
        Some(Color::Yellow)
    } else if str_eq(name, "Blue") {
        Some(Color::Blue)
    } else if str_eq(name, "Magenta") {
        Some(Color::Magenta)
    } else if str_eq(name, "Cyan") {
        Some(Color::Cyan)
    } else if str_eq(name, "Gray") {
        Some(Color::Gray)
    } else if str_eq(name, "DarkGray") {
        Some(Color::DarkGray)
    } else if str_eq(name, "LightRed") {
        Some(Color::LightRed)
    } else if str_eq(name, "LightGreen") {
        Some(Color::LightGreen)
    } else if str_eq(name, "LightYellow") {
        Some(Color::LightYellow)
    } else if str_eq(name, "LightBlue") {
        Some(Color::LightBlue)
    } else if str_eq(name, "LightMagenta") {
        Some(Color::LightMagenta)
    } else if str_eq(name, "LightCyan") {
        Some(Color::LightCyan)
    } else if str_eq(name, "White") {
        Some(Color::White)
    } else {
        let v = chars_of(name);
        if v.len() == 7 && v[0] == '#' {
            match (hex_pair(&v, 1), hex_pair(&v, 3), hex_pair(&v, 5)) {
                (Some(r), Some(g), Some(b)) => Some(Color::Rgb(r, g, b)),
                _ => None,
            }
        } else {
            match parse_u64(name) {
                Some(n) => if n <= 255 {
                    Some(Color::Indexed(n as u8))
                } else {
                    None
                },
                None => None,
            }
        }
    }
}

fn color_of(name: &Option<String>) -> (r: Option<Color>)
    ensures
        r == color_of_name(opt_view(*name)),
{
    match name {
        Some(n) => color_from_name(n.as_str()),
        None => None,
    }
}

/// The line the log view draws for `raw`, given what the parser read from it.
pub fn line_from_ansi(raw: &str, parsed: Option<Vec<Vec<AnsiSpan>>>) -> (r: StyledLine)
    ensures
        r@ == line_from_parse(raw@, parse_view(parsed)),
{
    let ghost pv = parse_view(parsed);
    let mut spans: Vec<StyledSpan> = Vec::new();
    match parsed {
        Some(ls) => {
            if ls.len() > 0 {
                let first = &ls[0];
                let ghost want = pv.unwrap()[0].map_values(
                    |sp: (Seq<char>, Option<Seq<char>>, Option<Seq<char>>, u16, u16)| styled_ansi_span(sp),
                );
                assert(pv.unwrap()[0] == first@.map_values(|s: AnsiSpan| s@));
                let mut k: usize = 0;
                while k < first.len()
                    invariant
                        k <= first.len(),
                        want == first@.map_values(|s: AnsiSpan| s@).map_values(
                            |sp: (Seq<char>, Option<Seq<char>>, Option<Seq<char>>, u16, u16)| styled_ansi_span(sp),
                        ),
                        span_views(spans@) == want.take(k as int),
                    decreases first.len() - k,
                {
                    let sp = &first[k];
                    let style = SpanStyle {
                        fg: color_of(&sp.fg),
                        bg: color_of(&sp.bg),
                        add_modifier: sp.add_modifier,
                        sub_modifier: sp.sub_modifier,
                    };
                    assert(want[k as int] == styled_ansi_span(first@[k as int]@));
                    push_span(&mut spans, sp.text.as_str(), style);
                    assert(want.take(k + 1) == want.take(k as int).push(want[k as int]));
                    k += 1;
                }
                assert(want.take(first.len() as int) == want);
            } else {
                assert(span_views(spans@) =~= Seq::<(Seq<char>, SpanStyle)>::empty());
            }
        },
        None => {
            let raw_lines = lines(raw);
            let ghost want = text_lines(raw@).map_values(|l: Seq<char>| (l, plain_style()));
            let mut k: usize = 0;
            while k < raw_lines.len()
                invariant
                    k <= raw_lines.len(),
                    views(raw_lines@) == text_lines(raw@),
                    want == text_lines(raw@).map_values(|l: Seq<char>| (l, plain_style())),
                    span_views(spans@) == want.take(k as int),
                decreases raw_lines.len() - k,
            {
                assert(views(raw_lines@)[k as int] == raw_lines@[k as int]@);
                push_span(&mut spans, raw_lines[k].as_str(), SpanStyle::new());
                assert(want.take(k + 1) == want.take(k as int).push(want[k as int]));
                k += 1;
            }
            assert(want.take(raw_lines.len() as int) == want);
        },
    }
    line_of(spans)
}

/// A log line read from its escape sequences by ansi-to-tui.
pub fn ansi_styled_line(raw: &str) -> (r: StyledLine)
    ensures
        r@ == ansi_line(raw@),
{
    let parsed = parse_ansi(raw);
    line_from_ansi(raw, parsed)
}

/// The hexadecimal digit, in capitals, for `d < 16`.
pub open spec fn hex_char(d: int) -> char {
    if d < 10 {
        ((d + '0' as int) as u32) as char
    } else {
        ((d - 10 + 'A' as int) as u32) as char
    }
}

/// The name ratatui's `Display` writes for a colour: the colour's own name,
/// `#` and six hexadecimal capitals for a 24-bit colour, or the decimal
/// index of a palette entry.
pub open spec fn color_display_name(c: Color) -> Seq<char> {
    match c {
        Color::Reset => "Reset"@,
        Color::Black => "Black"@,
        Color::Red => "Red"@,
        Color::Green => "Green"@,
        Color::Yellow => "Yellow"@,
        Color::Blue => "Blue"@,
        Color::Magenta => "Magenta"@,
        Color::Cyan => "Cyan"@,
        Color::Gray => "Gray"@,
        Color::DarkGray => "DarkGray"@,
        Color::LightRed => "LightRed"@,
        Color::LightGreen => "LightGreen"@,
        Color::LightYellow => "LightYellow"@,
        Color::LightBlue => "LightBlue"@,
        Color::LightMagenta => "LightMagenta"@,
        Color::LightCyan => "LightCyan"@,
        Color::White => "White"@,
        Color::Rgb(r, g, b) => seq![
            '#',
            hex_char(r as int / 16),
            hex_char(r as int % 16),
            hex_char(g as int / 16),
            hex_char(g as int % 16),
            hex_char(b as int / 16),
            hex_char(b as int % 16),
        ],
        Color::Indexed(i) => decimal(i as nat),
    }
}

proof fn lemma_hex_char_value(d: int)
    requires
        0 <= d < 16,
    ensures
        hex_value(hex_char(d)) == Some(d as u8),
        hex_char(d) != '+',
{
}

proof fn lemma_hex_byte(s: Seq<char>, i: int, v: u8)
    requires
        0 <= i,
        i + 1 < s.len(),
        s[i] == hex_char(v as int / 16),
        s[i + 1] == hex_char(v as int % 16),
    ensures
        hex_byte(s, i) == Some(v),
{
    lemma_hex_char_value(v as int / 16);
    lemma_hex_char_value(v as int % 16);
    assert(16 * (v as int / 16) + v as int % 16 == v);
}

proof fn lemma_decimal_parses(n: nat)
    requires
        n <= u64::MAX,
    ensures
        decimal(n).len() > 0,
        all_digits(decimal(n)),
        digits_value(decimal(n)) == n,
        parsed_u64(decimal(n)) == Some(n as u64),
    decreases n,
{
    if n >= 10 {
        lemma_decimal_parses(n / 10);
        let prev = decimal(n / 10);
        let d = n % 10;
        assert(decimal(n) == prev.push(digit_char(d)));
        assert(decimal(n).drop_last() == prev);
        assert(digit_char(d) as int - '0' as int == d);
        assert(decimal(n).last() == digit_char(d));
        assert(digits_value(decimal(n)) == digits_value(prev) * 10 + d);
        assert((n / 10) * 10 + n % 10 == n) by (nonlinear_arith);
        assert forall|k: int| 0 <= k < decimal(n).len() implies is_digit(#[trigger] decimal(n)[k]) by {
            if k < prev.len() {
                assert(decimal(n)[k] == prev[k]);
            }
        }
    } else {
        assert(decimal(n).drop_last() =~= Seq::<char>::empty());
        assert(digit_char(n) as int - '0' as int == n);
        assert(decimal(n).last() == digit_char(n));
        assert(digits_value(decimal(n)) == digits_value(decimal(n).drop_last()) * 10 + n);
    }
    assert(decimal(n)[0] != '+');
    assert(unsigned_digits(decimal(n)) == decimal(n));
}

/// Reading the name ratatui writes for a colour gives that colour back.
pub proof fn lemma_color_name_round_trip(c: Color)
    ensures
        color_named(color_display_name(c)) == Some(c),
{
    reveal_strlit("Reset");
    reveal_strlit("Black");
    reveal_strlit("Red");
    reveal_strlit("Green");
    reveal_strlit("Yellow");
    reveal_strlit("Blue");
    reveal_strlit("Magenta");
    reveal_strlit("Cyan");
    reveal_strlit("Gray");
    reveal_strlit("DarkGray");
    reveal_strlit("LightRed");
    reveal_strlit("LightGreen");
    reveal_strlit("LightYellow");
    reveal_strlit("LightBlue");
    reveal_strlit("LightMagenta");
    reveal_strlit("LightCyan");
    reveal_strlit("White");
    assert("Reset"@[0] != "Black"@[0]);
    assert("Reset"@.len() != "Red"@.len());
    assert("Reset"@[0] != "Green"@[0]);
    assert("Reset"@.len() != "Yellow"@.len());
    assert("Reset"@.len() != "Blue"@.len());
    assert("Reset"@.len() != "Magenta"@.len());
    assert("Reset"@.len() != "Cyan"@.len());
    assert("Reset"@.len() != "Gray"@.len());
    assert("Reset"@.len() != "DarkGray"@.len());
    assert("Reset"@.len() != "LightRed"@.len());
    assert("Reset"@.len() != "LightGreen"@.len());
    assert("Reset"@.len() != "LightYellow"@.len());
    assert("Reset"@.len() != "LightBlue"@.len());
    assert("Reset"@.len() != "LightMagenta"@.len());
    assert("Reset"@.len() != "LightCyan"@.len());
    assert("Reset"@[0] != "White"@[0]);
    assert("Black"@.len() != "Red"@.len());
    assert("Black"@[0] != "Green"@[0]);
    assert("Black"@.len() != "Yellow"@.len());
    assert("Black"@.len() != "Blue"@.len());
    assert("Black"@.len() != "Magenta"@.len());
    assert("Black"@.len() != "Cyan"@.len());
    assert("Black"@.len() != "Gray"@.len());
    assert("Black"@.len() != "DarkGray"@.len());
    assert("Black"@.len() != "LightRed"@.len());
    assert("Black"@.len() != "LightGreen"@.len());
    assert("Black"@.len() != "LightYellow"@.len());
    assert("Black"@.len() != "LightBlue"@.len());
    assert("Black"@.len() != "LightMagenta"@.len());
    assert("Black"@.len() != "LightCyan"@.len());
    assert("Black"@[0] != "White"@[0]);
    assert("Red"@.len() != "Green"@.len());
    assert("Red"@.len() != "Yellow"@.len());
    assert("Red"@.len() != "Blue"@.len());
    assert("Red"@.len() != "Magenta"@.len());
    assert("Red"@.len() != "Cyan"@.len());
    assert("Red"@.len() != "Gray"@.len());
    assert("Red"@.len() != "DarkGray"@.len());
    assert("Red"@.len() != "LightRed"@.len());
    assert("Red"@.len() != "LightGreen"@.len());
    assert("Red"@.len() != "LightYellow"@.len());
    assert("Red"@.len() != "LightBlue"@.len());
    assert("Red"@.len() != "LightMagenta"@.len());
    assert("Red"@.len() != "LightCyan"@.len());
    assert("Red"@.len() != "White"@.len());
    assert("Green"@.len() != "Yellow"@.len());
    assert("Green"@.len() != "Blue"@.len());
    assert("Green"@.len() != "Magenta"@.len());
    assert("Green"@.len() != "Cyan"@.len());
    assert("Green"@.len() != "Gray"@.len());
    assert("Green"@.len() != "DarkGray"@.len());
    assert("Green"@.len() != "LightRed"@.len());
    assert("Green"@.len() != "LightGreen"@.len());
    assert("Green"@.len() != "LightYellow"@.len());
    assert("Green"@.len() != "LightBlue"@.len());
    assert("Green"@.len() != "LightMagenta"@.len());
    assert("Green"@.len() != "LightCyan"@.len());
    assert("Green"@[0] != "White"@[0]);
    assert("Yellow"@.len() != "Blue"@.len());
    assert("Yellow"@.len() != "Magenta"@.len());
    assert("Yellow"@.len() != "Cyan"@.len());
    assert("Yellow"@.len() != "Gray"@.len());
    assert("Yellow"@.len() != "DarkGray"@.len());
    assert("Yellow"@.len() != "LightRed"@.len());
    assert("Yellow"@.len() != "LightGreen"@.len());
    assert("Yellow"@.len() != "LightYellow"@.len());
    assert("Yellow"@.len() != "LightBlue"@.len());
    assert("Yellow"@.len() != "LightMagenta"@.len());
    assert("Yellow"@.len() != "LightCyan"@.len());
    assert("Yellow"@.len() != "White"@.len());
    assert("Blue"@.len() != "Magenta"@.len());
    assert("Blue"@[0] != "Cyan"@[0]);
    assert("Blue"@[0] != "Gray"@[0]);
    assert("Blue"@.len() != "DarkGray"@.len());
    assert("Blue"@.len() != "LightRed"@.len());
    assert("Blue"@.len() != "LightGreen"@.len());
    assert("Blue"@.len() != "LightYellow"@.len());
    assert("Blue"@.len() != "LightBlue"@.len());
    assert("Blue"@.len() != "LightMagenta"@.len());
    assert("Blue"@.len() != "LightCyan"@.len());
    assert("Blue"@.len() != "White"@.len());
    assert("Magenta"@.len() != "Cyan"@.len());
    assert("Magenta"@.len() != "Gray"@.len());
    assert("Magenta"@.len() != "DarkGray"@.len());
    assert("Magenta"@.len() != "LightRed"@.len());
    assert("Magenta"@.len() != "LightGreen"@.len());
    assert("Magenta"@.len() != "LightYellow"@.len());
    assert("Magenta"@.len() != "LightBlue"@.len());
    assert("Magenta"@.len() != "LightMagenta"@.len());
    assert("Magenta"@.len() != "LightCyan"@.len());
    assert("Magenta"@.len() != "White"@.len());
    assert("Cyan"@[0] != "Gray"@[0]);
    assert("Cyan"@.len() != "DarkGray"@.len());
    assert("Cyan"@.len() != "LightRed"@.len());
    assert("Cyan"@.len() != "LightGreen"@.len());
    assert("Cyan"@.len() != "LightYellow"@.len());
    assert("Cyan"@.len() != "LightBlue"@.len());
    assert("Cyan"@.len() != "LightMagenta"@.len());
    assert("Cyan"@.len() != "LightCyan"@.len());
    assert("Cyan"@.len() != "White"@.len());
    assert("Gray"@.len() != "DarkGray"@.len());
    assert("Gray"@.len() != "LightRed"@.len());
    assert("Gray"@.len() != "LightGreen"@.len());
    assert("Gray"@.len() != "LightYellow"@.len());
    assert("Gray"@.len() != "LightBlue"@.len());
    assert("Gray"@.len() != "LightMagenta"@.len());
    assert("Gray"@.len() != "LightCyan"@.len());
    assert("Gray"@.len() != "White"@.len());
    assert("DarkGray"@[0] != "LightRed"@[0]);
    assert("DarkGray"@.len() != "LightGreen"@.len());
    assert("DarkGray"@.len() != "LightYellow"@.len());
    assert("DarkGray"@.len() != "LightBlue"@.len());
    assert("DarkGray"@.len() != "LightMagenta"@.len());
    assert("DarkGray"@.len() != "LightCyan"@.len());
    assert("DarkGray"@.len() != "White"@.len());
    assert("LightRed"@.len() != "LightGreen"@.len());
    assert("LightRed"@.len() != "LightYellow"@.len());
    assert("LightRed"@.len() != "LightBlue"@.len());
    assert("LightRed"@.len() != "LightMagenta"@.len());
    assert("LightRed"@.len() != "LightCyan"@.len());
    assert("LightRed"@.len() != "White"@.len());
    assert("LightGreen"@.len() != "LightYellow"@.len());
    assert("LightGreen"@.len() != "LightBlue"@.len());
    assert("LightGreen"@.len() != "LightMagenta"@.len());
    assert("LightGreen"@.len() != "LightCyan"@.len());
    assert("LightGreen"@.len() != "White"@.len());
    assert("LightYellow"@.len() != "LightBlue"@.len());
    assert("LightYellow"@.len() != "LightMagenta"@.len());
    assert("LightYellow"@.len() != "LightCyan"@.len());
    assert("LightYellow"@.len() != "White"@.len());
    assert("LightBlue"@.len() != "LightMagenta"@.len());
    assert("LightBlue"@[5] != "LightCyan"@[5]);
    assert("LightBlue"@.len() != "White"@.len());
    assert("LightMagenta"@.len() != "LightCyan"@.len());
    assert("LightMagenta"@.len() != "White"@.len());
    assert("LightCyan"@.len() != "White"@.len());
    assert("Reset"@[0] == 'R');
    assert("Black"@[0] == 'B');
    assert("Red"@[0] == 'R');
    assert("Green"@[0] == 'G');
    assert("Yellow"@[0] == 'Y');
    assert("Blue"@[0] == 'B');
    assert("Magenta"@[0] == 'M');
    assert("Cyan"@[0] == 'C');
    assert("Gray"@[0] == 'G');
    assert("DarkGray"@[0] == 'D');
    assert("LightRed"@[0] == 'L');
    assert("LightGreen"@[0] == 'L');
    assert("LightYellow"@[0] == 'L');
    assert("LightBlue"@[0] == 'L');
    assert("LightMagenta"@[0] == 'L');
    assert("LightCyan"@[0] == 'L');
    assert("White"@[0] == 'W');
    match c {
        Color::Rgb(r, g, b) => {
            let s = color_display_name(c);
            lemma_hex_byte(s, 1, r);
            lemma_hex_byte(s, 3, g);
            lemma_hex_byte(s, 5, b);
            assert(s[0] == '#');
        },
        Color::Indexed(i) => {
            let s = color_display_name(c);
            lemma_decimal_parses(i as nat);
            assert(is_digit(s[0]));
        },
        _ => {},
    }
}

} // verus!
