//! Journal output: decoding and highlighting what `journalctl` prints, and
//! taking the terminal escape sequences back out of a text.
use vstd::prelude::*;
use crate::ansi::AnsiSpan;
use crate::bindings::{ansi_lines, decode_utf8_lossy, default_highlight, default_highlighter, highlight_line, parse_ansi, utf8_lossy};
use crate::text::{join, join_seqs, lines, push_str, text_lines, views};

verus! {

/// Fetches nothing itself: it holds the log highlighter, which is costly to
/// build, and turns `journalctl` output into display lines.
pub struct JournalManager {
    pub(crate) highlighter: tailspin::Highlighter,
}

/// The display lines of `journalctl` output: the output decoded as UTF-8
/// (invalid sequences replaced), split into lines, each line highlighted.
pub open spec fn highlighted_log(stdout: Seq<u8>) -> Seq<Seq<char>> {
    text_lines(utf8_lossy(stdout)).map_values(|line: Seq<char>| default_highlight(line))
}

/// The error reported when `journalctl` exits with a failure.
pub open spec fn journal_failure(stderr: Seq<u8>) -> Seq<char> {
    "journalctl failed: "@ + utf8_lossy(stderr)
}

impl JournalManager {
    /// A manager with tailspin's default highlighter.
    pub fn new() -> (r: JournalManager) {
        JournalManager { highlighter: default_highlighter() }
    }

    /// The display lines of what `journalctl` printed on its standard output.
    pub fn log_lines(&self, stdout: &[u8]) -> (r: Vec<String>)
        ensures
            views(r@) == highlighted_log(stdout@),
    {
        let content = decode_utf8_lossy(stdout);
        let raw = lines(content.as_str());
        let ghost expected = highlighted_log(stdout@);
        let mut out: Vec<String> = Vec::new();
        let mut i: usize = 0;
        while i < raw.len()
            invariant
                i <= raw.len(),
                views(raw@) == text_lines(utf8_lossy(stdout@)),
                expected == highlighted_log(stdout@),
                out.len() == i,
                forall|k: int| 0 <= k < i ==> #[trigger] out@[k]@ == expected[k],
            decreases raw.len() - i,
        {
            let h = highlight_line(self, raw[i].as_str());
            out.push(h);
            proof {
                assert(views(raw@)[i as int] == raw@[i as int]@);
            }
            i += 1;
        }
        assert(views(out@) =~= expected);
        out
    }

    /// The error text for a failed `journalctl` run, given what it printed on
    /// its standard error.
    pub fn failure_message(stderr: &[u8]) -> (r: String)
        ensures
            r@ == journal_failure(stderr@),
    {
        let mut r = String::from_str("journalctl failed: ");
        let detail = decode_utf8_lossy(stderr);
        push_str(&mut r, detail.as_str());
        r
    }
}

/// The pieces put end to end.
pub open spec fn concat_all(parts: Seq<Seq<char>>) -> Seq<char>
    decreases parts.len(),
{
    if parts.len() == 0 {
        Seq::empty()
    } else {
        concat_all(parts.drop_last()) + parts.last()
    }
}

/// The text of a line of spans read by the parser, end to end.
pub open spec fn span_text(spans: Seq<(Seq<char>, Option<Seq<char>>, Option<Seq<char>>, u16, u16)>) -> Seq<char> {
    concat_all(spans.map_values(|sp: (Seq<char>, Option<Seq<char>>, Option<Seq<char>>, u16, u16)| sp.0))
}

/// One line with its escape sequences taken out: the text of the spans of
/// each line ansi-to-tui reads from it, lines joined by `'\n'`; the line as
/// it is when ansi-to-tui reports an error.
pub open spec fn stripped_line(line: Seq<char>) -> Seq<char> {
    match ansi_lines(line) {
        Some(parsed) => join_seqs(parsed.map_values(|spans: Seq<(Seq<char>, Option<Seq<char>>, Option<Seq<char>>, u16, u16)>| span_text(spans)), "\n"@),
        None => line,
    }
}

/// A text with its escape sequences taken out, line by line, the lines joined by `'\n'`.
pub open spec fn stripped_text(content: Seq<char>) -> Seq<char> {
    join_seqs(text_lines(content).map_values(|line: Seq<char>| stripped_line(line)), "\n"@)
}

fn concat_span_texts(spans: &Vec<AnsiSpan>) -> (r: String)
    ensures
        r@ == span_text(spans@.map_values(|s: AnsiSpan| s@)),
{
    let ghost texts = spans@.map_values(|s: AnsiSpan| s@).map_values(
        |sp: (Seq<char>, Option<Seq<char>>, Option<Seq<char>>, u16, u16)| sp.0,
    );
    let mut r = String::new();
    let mut i: usize = 0;
    while i < spans.len()
        invariant
            i <= spans.len(),
            texts == spans@.map_values(|s: AnsiSpan| s@).map_values(
                |sp: (Seq<char>, Option<Seq<char>>, Option<Seq<char>>, u16, u16)| sp.0,
            ),
            r@ == concat_all(texts.take(i as int)),
        decreases spans.len() - i,
    {
        assert(texts.take(i + 1).drop_last() == texts.take(i as int));
        assert(texts[i as int] == spans@[i as int].text@);
        push_str(&mut r, spans[i].text.as_str());
        i += 1;
    }
    assert(texts.take(spans.len() as int) == texts);
    r
}

fn strip_line(line: &str) -> (r: String)
    ensures
        r@ == stripped_line(line@),
{
    match parse_ansi(line) {
        Some(parsed) => {
            let ghost pv = crate::ansi::nested_ansi_views(parsed@);
            let mut texts: Vec<String> = Vec::new();
            let mut i: usize = 0;
            while i < parsed.len()
                invariant
                    i <= parsed.len(),
                    pv == crate::ansi::nested_ansi_views(parsed@),
                    texts.len() == i,
                    forall|k: int| 0 <= k < i ==> #[trigger] texts@[k]@ == span_text(pv[k]),
                decreases parsed.len() - i,
            {
                let t = concat_span_texts(&parsed[i]);
                texts.push(t);
                i += 1;
            }
            assert(views(texts@) =~= pv.map_values(
                |spans: Seq<(Seq<char>, Option<Seq<char>>, Option<Seq<char>>, u16, u16)>| span_text(spans),
            ));
            join(&texts, "\n")
        },
        None => line.to_string(),
    }
}

/// Takes the terminal escape sequences out of a text, keeping what they colour.
pub fn strip_ansi_content(content: &str) -> (r: String)
    ensures
        r@ == stripped_text(content@),
{
    let raw = lines(content);
    let mut out: Vec<String> = Vec::new();
    let mut i: usize = 0;
    while i < raw.len()
        invariant
            i <= raw.len(),
            views(raw@) == text_lines(content@),
            out.len() == i,
            forall|k: int| 0 <= k < i ==> #[trigger] out@[k]@ == stripped_line(views(raw@)[k]),
        decreases raw.len() - i,
    {
        let s = strip_line(raw[i].as_str());
        out.push(s);
        i += 1;
    }
    assert(views(out@) =~= text_lines(content@).map_values(|line: Seq<char>| stripped_line(line)));
    join(&out, "\n")
}

} // verus!
