//! Calls into the outside crates the library computes with.
use ansi_to_tui::IntoText;
use fuzzy_matcher::FuzzyMatcher;
use fuzzy_matcher::skim::SkimMatcherV2;
use vstd::prelude::*;
use crate::ansi::{parse_view, AnsiSpan};
use crate::journal::JournalManager;

verus! {

/// The score that skim's default matcher gives `pattern` against `choice`,
/// `None` when the pattern does not match.
pub uninterp spec fn fuzzy_score(choice: Seq<char>, pattern: Seq<char>) -> Option<i64>;

/// Runs `SkimMatcherV2::default().fuzzy_match(choice, pattern)` from fuzzy-matcher.
/// The contract names the result and claims only that it is a function of the
/// two strings: a default matcher's configuration is fixed, and its caches do
/// not change results.
#[verifier::external_body]
pub(crate) fn fuzzy_match(choice: &str, pattern: &str) -> (r: Option<i64>)
    ensures
        r == fuzzy_score(choice@, pattern@),
{
    SkimMatcherV2::default().fuzzy_match(choice, pattern)
}

/// The final component of a path as `std::path::Path::file_name` gives it,
/// when that component is valid UTF-8; `None` when the path has no final
/// component (it is empty, a root, or ends in `..`).
pub uninterp spec fn path_file_name(path: Seq<char>) -> Option<Seq<char>>;

/// Runs `Path::new(path).file_name()` from std and converts the name to a
/// `String`. The contract names the result: it depends on the path text alone.
#[verifier::external_body]
pub(crate) fn file_name_of(path: &str) -> (r: Option<String>)
    ensures
        match r {
            Some(name) => path_file_name(path@) == Some(name@),
            None => path_file_name(path@) is None,
        },
{
    std::path::Path::new(path).file_name().and_then(|name| name.to_str()).map(|name| name.to_string())
}

/// The text `String::from_utf8_lossy` decodes from `bytes`: valid UTF-8
/// decoded, each invalid sequence replaced by U+FFFD.
pub uninterp spec fn utf8_lossy(bytes: Seq<u8>) -> Seq<char>;

/// Runs `String::from_utf8_lossy` from std. The contract names the result,
/// which depends on the bytes alone, and states what the documentation says
/// of valid input: it is decoded as it is, so encoding the text gives the
/// bytes back.
#[verifier::external_body]
pub(crate) fn decode_utf8_lossy(bytes: &[u8]) -> (r: String)
    ensures
        r@ == utf8_lossy(bytes@),
        vstd::utf8::valid_utf8(bytes@) ==> vstd::utf8::encode_utf8(r@) == bytes@,
{
    String::from_utf8_lossy(bytes).into_owned()
}

/// tailspin's log highlighter.
#[verifier::external_type_specification]
#[verifier::external_body]
pub struct ExHighlighter(tailspin::Highlighter);

/// Runs `Highlighter::default()` from tailspin: the highlighter with the
/// default patterns. Nothing is claimed of the value, which the library only
/// keeps and hands back to `apply`.
#[verifier::external_body]
pub(crate) fn default_highlighter() -> tailspin::Highlighter {
    tailspin::Highlighter::default()
}

/// The line tailspin's default highlighter makes of `line`: the same text
/// with ANSI colour sequences around what its patterns find.
pub uninterp spec fn default_highlight(line: Seq<char>) -> Seq<char>;

/// Runs `Highlighter::apply` from tailspin on the highlighter of a journal
/// manager, which is always the default one. The contract names the result:
/// the default patterns are fixed, so it depends on the line alone.
#[verifier::external_body]
pub(crate) fn highlight_line(manager: &JournalManager, line: &str) -> (r: String)
    ensures
        r@ == default_highlight(line@),
{
    manager.highlighter.apply(line).into_owned()
}

/// The spans of each line that ansi-to-tui reads from `text`, its escape
/// sequences turned into styles: each span's text, the names ratatui writes
/// for its foreground and background colours, and the bits of the modifiers
/// it adds and takes away; `None` when it reports an error.
pub uninterp spec fn ansi_lines(text: Seq<char>) -> Option<Seq<Seq<(Seq<char>, Option<Seq<char>>, Option<Seq<char>>, u16, u16)>>>;

/// Runs `IntoText::into_text` from ansi-to-tui on the bytes of `text` and
/// gives each span in plain values: its text, its colours as ratatui's
/// `Display` writes them, and its modifiers' bits. The contract names the
/// result, a function of the text alone.
#[verifier::external_body]
pub(crate) fn parse_ansi(text: &str) -> (r: Option<Vec<Vec<AnsiSpan>>>)
    ensures
        ansi_lines(text@) == parse_view(r),
{
    match text.as_bytes().into_text() {
        Ok(parsed) => Some(parsed.lines.into_iter().map(|line| line.spans.into_iter().map(|s| AnsiSpan {
            text: s.content.into_owned(),
            fg: s.style.fg.map(|c| c.to_string()),
            bg: s.style.bg.map(|c| c.to_string()),
            add_modifier: s.style.add_modifier.bits(),
            sub_modifier: s.style.sub_modifier.bits(),
        }).collect()).collect()),
        Err(_) => None,
    }
}

/// An area of the screen: column, row, width, height.
pub type Area = (u16, u16, u16, u16);

/// The areas ratatui's `Layout::horizontal` gives when it splits `area` into
/// columns of the given percentages.
pub uninterp spec fn horizontal_split(area: Area, percents: Seq<u16>) -> Seq<Area>;

/// The areas ratatui's `Layout::vertical` gives when it splits `area` into
/// rows of the given percentages.
pub uninterp spec fn vertical_split(area: Area, percents: Seq<u16>) -> Seq<Area>;

/// Runs `Layout::horizontal(..).split(area)` from ratatui with one
/// `Constraint::Percentage` per entry. The contract names the result, which
/// depends on its arguments alone, and claims that there is one area per
/// percentage, as the crate's `areas` documents.
#[verifier::external_body]
pub(crate) fn split_horizontally(area: Area, percents: &Vec<u16>) -> (r: Vec<Area>)
    ensures
        r@ == horizontal_split(area, percents@),
        r.len() == percents.len(),
{
    let rect = ratatui::layout::Rect::new(area.0, area.1, area.2, area.3);
    let constraints = percents.iter().map(|p| ratatui::layout::Constraint::Percentage(*p));
    ratatui::layout::Layout::horizontal(constraints).split(rect).iter().map(|r| (r.x, r.y, r.width, r.height)).collect()
}

/// Runs `Layout::vertical(..).split(area)` from ratatui with one
/// `Constraint::Percentage` per entry. The contract names the result, which
/// depends on its arguments alone, and claims that there is one area per
/// percentage, as the crate's `areas` documents.
#[verifier::external_body]
pub(crate) fn split_vertically(area: Area, percents: &Vec<u16>) -> (r: Vec<Area>)
    ensures
        r@ == vertical_split(area, percents@),
        r.len() == percents.len(),
{
    let rect = ratatui::layout::Rect::new(area.0, area.1, area.2, area.3);
    let constraints = percents.iter().map(|p| ratatui::layout::Constraint::Percentage(*p));
    ratatui::layout::Layout::vertical(constraints).split(rect).iter().map(|r| (r.x, r.y, r.width, r.height)).collect()
}

} // verus!
