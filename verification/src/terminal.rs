//! The pseudo-terminal the authentication agent runs in: what a key press
//! sends to it, how its output is cleaned up, and how the start time of this
//! process is read from `/proc/self/stat` for the agent's command line.
use vstd::prelude::*;
use crate::bindings::{decode_utf8_lossy, utf8_lossy};
use crate::keys::{KeyCode, KeyEvent};
use crate::text::{chars_of, is_white_space, push_char, white_space};

verus! {

/// The text with every CR LF pair, and every other CR, turned into one LF.
pub open spec fn unix_newlines(s: Seq<char>) -> Seq<char>
    decreases s.len(),
{
    if s.len() == 0 {
        Seq::empty()
    } else if s[0] == '\r' && s.len() >= 2 && s[1] == '\n' {
        seq!['\n'] + unix_newlines(s.skip(2))
    } else if s[0] == '\r' {
        seq!['\n'] + unix_newlines(s.skip(1))
    } else {
        seq![s[0]] + unix_newlines(s.skip(1))
    }
}

/// Decodes a chunk of terminal output (invalid UTF-8 replaced) with Unix line ends.
pub fn normalize_pty_output(bytes: &[u8]) -> (r: String)
    ensures
        r@ == unix_newlines(utf8_lossy(bytes@)),
{
    let text = decode_utf8_lossy(bytes);
    let v = chars_of(text.as_str());
    let mut out = String::new();
    let mut i: usize = 0;
    assert(v@.skip(0) == v@);
    while i < v.len()
        invariant
            i <= v.len(),
            unix_newlines(v@) == out@ + unix_newlines(v@.skip(i as int)),
        decreases v.len() - i,
    {
        let ghost rest = v@.skip(i as int);
        if v[i] == '\r' && i + 1 < v.len() && v[i + 1] == '\n' {
            assert(rest.skip(2) == v@.skip(i + 2));
            push_char(&mut out, '\n');
            i += 2;
        } else {
            assert(rest.skip(1) == v@.skip(i + 1));
            if v[i] == '\r' {
                push_char(&mut out, '\n');
            } else {
                push_char(&mut out, v[i]);
            }
            i += 1;
        }
    }
    assert(v@.skip(i as int).len() == 0);
    out
}

/// The UTF-8 encoding of a character (vstd's encoding of its scalar value).
pub open spec fn utf8_encoding(c: char) -> Seq<u8> {
    vstd::utf8::encode_scalar(c as u32)
}

/// Encodes a character as UTF-8 (`char::encode_utf8`).
pub fn encode_utf8(c: char) -> (r: Vec<u8>)
    ensures
        r@ == utf8_encoding(c),
{
    let n = c as u32;
    if n < 0x80 {
        vec![(n & 0x7F) as u8]
    } else if n < 0x800 {
        vec![0xC0u8 | ((n >> 6) & 0x1F) as u8, 0x80u8 | (n & 0x3F) as u8]
    } else if n < 0x10000 {
        vec![0xE0u8 | ((n >> 12) & 0x0F) as u8, 0x80u8 | ((n >> 6) & 0x3F) as u8, 0x80u8 | (n & 0x3F) as u8]
    } else {
        vec![
            0xF0u8 | ((n >> 18) & 0x7) as u8,
            0x80u8 | ((n >> 12) & 0x3F) as u8,
            0x80u8 | ((n >> 6) & 0x3F) as u8,
            0x80u8 | (n & 0x3F) as u8,
        ]
    }
}

/// The bytes a key press sends to the terminal: with Control held, only
/// Ctrl-C, Ctrl-D and Ctrl-Q send anything (ETX, EOT, DC1); otherwise Enter
/// sends CR, Tab HT, Backspace DEL, Esc ESC and a character its UTF-8 encoding.
pub open spec fn key_bytes(key: KeyEvent) -> Option<Seq<u8>> {
    if key.modifiers.control {
        match key.code {
            KeyCode::Char('c') => Some(seq![0x03u8]),
            KeyCode::Char('d') => Some(seq![0x04u8]),
            KeyCode::Char('q') => Some(seq![0x11u8]),
            _ => None,
        }
    } else {
        match key.code {
            KeyCode::Enter => Some(seq![0x0du8]),
            KeyCode::Tab => Some(seq![0x09u8]),
            KeyCode::Backspace => Some(seq![0x7fu8]),
            KeyCode::Esc => Some(seq![0x1bu8]),
            KeyCode::Char(c) => Some(utf8_encoding(c)),
            _ => None,
        }
    }
}

/// The bytes to write to the terminal for a key press, if it sends any.
pub fn key_to_bytes(key: KeyEvent) -> (r: Option<Vec<u8>>)
    ensures
        match r {
            Some(b) => key_bytes(key) == Some(b@),
            None => key_bytes(key) is None,
        },
{
    if key.modifiers.control {
        return match key.code {
            KeyCode::Char('c') => Some(vec![0x03u8]),
            KeyCode::Char('d') => Some(vec![0x04u8]),
            KeyCode::Char('q') => Some(vec![0x11u8]),
            _ => None,
        };
    }
    match key.code {
        KeyCode::Enter => Some(vec![0x0du8]),
        KeyCode::Tab => Some(vec![0x09u8]),
        KeyCode::Backspace => Some(vec![0x7fu8]),
        KeyCode::Esc => Some(vec![0x1bu8]),
        KeyCode::Char(c) => Some(encode_utf8(c)),
        _ => None,
    }
}

/// The maximal runs of non-white-space characters, in order
/// (`str::split_whitespace`).
pub open spec fn words(s: Seq<char>) -> Seq<Seq<char>>
    decreases s.len(),
{
    if s.len() == 0 {
        Seq::empty()
    } else {
        let w = words(s.drop_last());
        let c = s.last();
        if is_white_space(c) {
            w
        } else if s.len() >= 2 && !is_white_space(s[s.len() - 2]) && w.len() > 0 {
            w.update(w.len() - 1, w.last().push(c))
        } else {
            w.push(seq![c])
        }
    }
}

/// The value of a string of decimal digits.
pub open spec fn digits_value(s: Seq<char>) -> nat
    decreases s.len(),
{
    if s.len() == 0 {
        0
    } else {
        digits_value(s.drop_last()) * 10 + ((s.last() as int - '0' as int) as nat)
    }
}

/// `c` is an ASCII digit.
pub open spec fn is_digit(c: char) -> bool {
    '0' <= c <= '9'
}

/// The text after an optional leading `'+'`.
pub open spec fn unsigned_digits(s: Seq<char>) -> Seq<char> {
    if s.len() > 0 && s[0] == '+' {
        s.skip(1)
    } else {
        s
    }
}

/// Every character is an ASCII digit.
pub open spec fn all_digits(s: Seq<char>) -> bool {
    forall|i: int| 0 <= i < s.len() ==> is_digit(#[trigger] s[i])
}

/// What `str::parse::<u64>` gives: an optional `'+'` then one or more ASCII
/// digits whose value fits in 64 bits; `None` for anything else.
pub open spec fn parsed_u64(s: Seq<char>) -> Option<u64> {
    let digits = unsigned_digits(s);
    if digits.len() > 0 && all_digits(digits) && digits_value(digits) <= u64::MAX {
        Some(digits_value(digits) as u64)
    } else {
        None
    }
}

proof fn lemma_digits_value_grows(s: Seq<char>, i: int)
    requires
        0 <= i <= s.len(),
        forall|k: int| 0 <= k < s.len() ==> is_digit(#[trigger] s[k]),
    ensures
        digits_value(s.take(i)) <= digits_value(s),
    decreases s.len() - i,
{
    if i < s.len() {
        lemma_digits_value_grows(s, i + 1);
        assert(s.take(i + 1).drop_last() == s.take(i));
    } else {
        assert(s.take(i) == s);
    }
}

/// Parses a decimal `u64` as `str::parse` does.
pub fn parse_u64(s: &str) -> (r: Option<u64>)
    ensures
        r == parsed_u64(s@),
{
    let v = chars_of(s);
    let start: usize = if v.len() > 0 && v[0] == '+' { 1 } else { 0 };
    let ghost digits = unsigned_digits(v@);
    assert(digits == v@.skip(start as int));
    if start == v.len() {
        return None;
    }
    let mut acc: u64 = 0;
    let mut i: usize = start;
    while i < v.len()
        invariant
            start <= i <= v.len(),
            v@ == s@,
            digits == v@.skip(start as int),
            start == 0 || (start == 1 && v@[0] == '+'),
            start == 0 ==> (v@.len() == 0 || v@[0] != '+'),
            forall|k: int| 0 <= k < i - start ==> is_digit(#[trigger] digits[k]),
            acc as nat == digits_value(digits.take(i - start)),
        decreases v.len() - i,
    {
        let c = v[i];
        if !('0' <= c && c <= '9') {
            assert(digits[i - start] == c);
            assert(!is_digit(digits[i - start]));
            assert(unsigned_digits(s@) == digits);
            assert(parsed_u64(s@) is None);
            return None;
        }
        let d = (c as u32 - '0' as u32) as u64;
        assert(digits.take(i - start + 1).drop_last() == digits.take(i - start));
        assert(digits.take(i - start + 1).last() == c);
        match acc.checked_mul(10) {
            None => {
                return self::parse_u64_rest(&v, start, i, acc);
            },
            Some(m) => match m.checked_add(d) {
                None => {
                    return self::parse_u64_rest(&v, start, i, acc);
                },
                Some(next) => {
                    acc = next;
                },
            },
        }
        i += 1;
    }
    assert(digits.take(v.len() - start) == digits);
    Some(acc)
}

/// Finishes a parse whose value no longer fits: `None` whatever the rest is.
fn parse_u64_rest(v: &Vec<char>, start: usize, i: usize, acc: u64) -> (r: Option<u64>)
    requires
        start <= i < v.len(),
        forall|k: int| 0 <= k < i - start ==> is_digit(#[trigger] v@.skip(start as int)[k]),
        is_digit(v@[i as int]),
        acc as nat == digits_value(v@.skip(start as int).take(i - start)),
        acc as int * 10 + (v@[i as int] as int - '0' as int) > u64::MAX,
        start == 0 || (start == 1 && v@[0] == '+'),
        start == 0 ==> (v@.len() == 0 || v@[0] != '+'),
    ensures
        r == parsed_u64(v@),
{
    let ghost digits = v@.skip(start as int);
    proof {
        assert(v@.skip(0) == v@);
        assert(unsigned_digits(v@) == digits);
        let j = i - start + 1;
        assert(digits.take(j).drop_last() == digits.take(j - 1));
        assert(digits[j - 1] == v@[i as int]);
        assert(digits.take(j).last() == v@[i as int]);
        assert(digits_value(digits.take(j)) == digits_value(digits.take(j - 1)) * 10 + ((v@[i as int] as int - '0' as int) as nat));
        assert(digits_value(digits.take(j)) > u64::MAX);
        if forall|k: int| 0 <= k < digits.len() ==> is_digit(#[trigger] digits[k]) {
            lemma_digits_value_grows(digits, j);
            assert(digits_value(digits) > u64::MAX);
        }
        assert(parsed_u64(v@) is None);
    }
    None
}

/// Why the start time could not be read from the process status line.
#[derive(Debug, Clone, Copy, PartialEq, Eq, Structural)]
pub enum StartTimeError {
    /// The line has no `") "` after the command name.
    Malformed,
    /// Fewer than twenty fields follow the command name.
    FieldMissing,
    /// The field is not a decimal number that fits in 64 bits.
    NotANumber,
}

/// The index of the last occurrence of `pat` in `s`, or -1.
pub open spec fn last_occurrence(s: Seq<char>, pat: Seq<char>) -> int
    decreases s.len(),
{
    if s.len() < pat.len() {
        -1
    } else if s.subrange(s.len() - pat.len(), s.len() as int) == pat {
        s.len() - pat.len()
    } else if s.len() == 0 {
        -1
    } else {
        last_occurrence(s.drop_last(), pat)
    }
}

/// The start time of a process, in clock ticks, from the text of its
/// `/proc/<pid>/stat`: the twentieth field after the `") "` that ends the
/// command name (the last one in the text, so a name holding `") "` does no harm).
pub open spec fn stat_start_time(stat: Seq<char>) -> Result<u64, StartTimeError> {
    let at = last_occurrence(stat, ") "@);
    if at < 0 {
        Err(StartTimeError::Malformed)
    } else {
        let fields = words(stat.skip(at + 2));
        if fields.len() <= 19 {
            Err(StartTimeError::FieldMissing)
        } else {
            match parsed_u64(fields[19]) {
                Some(n) => Ok(n),
                None => Err(StartTimeError::NotANumber),
            }
        }
    }
}

fn last_paren_space(v: &Vec<char>) -> (r: Option<usize>)
    ensures
        match r {
            Some(i) => i + 2 <= v.len() && i == last_occurrence(v@, ") "@),
            None => last_occurrence(v@, ") "@) < 0,
        },
{
    proof { reveal_strlit(") "); }
    let mut n = v.len();
    assert(v@.take(n as int) == v@);
    while n >= 2
        invariant
            n <= v.len(),
            last_occurrence(v@, ") "@) == last_occurrence(v@.take(n as int), ") "@),
        decreases n,
    {
        let ghost t = v@.take(n as int);
        proof { reveal_strlit(") "); }
        if v[n - 2] == ')' && v[n - 1] == ' ' {
            assert(t.subrange(n - 2, n as int) =~= ") "@);
            return Some(n - 2);
        }
        assert(t.subrange(n - 2, n as int) != ") "@) by {
            if t.subrange(n - 2, n as int) == ") "@ {
                assert(t.subrange(n - 2, n as int)[0] == ')');
                assert(t.subrange(n - 2, n as int)[1] == ' ');
            }
        }
        assert(t.drop_last() == v@.take(n - 1));
        n -= 1;
    }
    None
}

/// Splits characters `from..` of `v` at white space.
fn split_words(v: &Vec<char>, from: usize) -> (r: Vec<Vec<char>>)
    requires
        from <= v.len(),
    ensures
        r@.map_values(|w: Vec<char>| w@) == words(v@.skip(from as int)),
{
    let ghost s = v@.skip(from as int);
    let mut done: Vec<Vec<char>> = Vec::new();
    let mut cur: Vec<char> = Vec::new();
    let mut i: usize = from;
    while i < v.len()
        invariant
            from <= i <= v.len(),
            s == v@.skip(from as int),
            cur@.len() > 0 ==> (i > from && !is_white_space(v@[i - 1])),
            (i > from && !is_white_space(v@[i - 1])) ==> cur@.len() > 0,
            words(s.take(i - from)) == if cur@.len() > 0 {
                done@.map_values(|w: Vec<char>| w@).push(cur@)
            } else {
                done@.map_values(|w: Vec<char>| w@)
            },
        decreases v.len() - i,
    {
        let ghost t = s.take(i - from + 1);
        proof {
            assert(t.drop_last() == s.take(i - from));
            assert(t.last() == v@[i as int]);
            if i > from {
                assert(t[t.len() - 2] == v@[i - 1]);
            }
        }
        let c = v[i];
        if white_space(c) {
            if cur.len() > 0 {
                let w = cur;
                done.push(w);
                cur = Vec::new();
                assert(done@.map_values(|w: Vec<char>| w@) =~= words(s.take(i - from)));
            }
        } else {
            let ghost before = words(s.take(i - from));
            let ghost old_cur = cur@;
            let ghost dv = done@.map_values(|w: Vec<char>| w@);
            cur.push(c);
            proof {
                if old_cur.len() > 0 {
                    assert(before == dv.push(old_cur));
                    assert(t.len() >= 2 && !is_white_space(t[t.len() - 2]));
                    assert(words(t) == before.update(before.len() - 1, before.last().push(c)));
                    assert(words(t) =~= dv.push(cur@));
                } else {
                    assert(before == dv);
                    assert(!(t.len() >= 2 && !is_white_space(t[t.len() - 2])));
                    assert(words(t) == before.push(seq![c]));
                    assert(cur@ =~= seq![c]);
                    assert(words(t) =~= dv.push(cur@));
                }
            }
        }
        i += 1;
    }
    assert(s.take(v.len() - from) == s);
    if cur.len() > 0 {
        done.push(cur);
    }
    assert(done@.map_values(|w: Vec<char>| w@) =~= words(s));
    done
}

/// Reads the start time of a process from the text of its `/proc/<pid>/stat`.
pub fn parse_process_start_time(stat: &str) -> (r: Result<u64, StartTimeError>)
    ensures
        r == stat_start_time(stat@),
{
    let v = chars_of(stat);
    match last_paren_space(&v) {
        None => Err(StartTimeError::Malformed),
        Some(at) => {
            let fields = split_words(&v, at + 2);
            assert(fields@.map_values(|w: Vec<char>| w@).len() == fields.len());
            if fields.len() <= 19 {
                return Err(StartTimeError::FieldMissing);
            }
            let mut field = String::new();
            let mut k: usize = 0;
            while k < fields[19].len()
                invariant
                    19 < fields.len(),
                    k <= fields@[19]@.len(),
                    field@ == fields@[19]@.take(k as int),
                decreases fields@[19]@.len() - k,
            {
                push_char(&mut field, fields[19][k]);
                assert(fields@[19]@.take(k + 1) == fields@[19]@.take(k as int).push(fields@[19]@[k as int]));
                k += 1;
            }
            assert(fields@[19]@.take(k as int) == fields@[19]@);
            assert(fields@.map_values(|w: Vec<char>| w@)[19] == fields@[19]@);
            match parse_u64(field.as_str()) {
                Some(n) => Ok(n),
                None => Err(StartTimeError::NotANumber),
            }
        },
    }
}

} // verus!
