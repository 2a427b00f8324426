use lazysysd::keys::{KeyCode, KeyEvent, KeyModifiers};
use lazysysd::terminal::{encode_utf8, key_to_bytes, normalize_pty_output, parse_process_start_time, parse_u64, StartTimeError};

#[test]
fn pty_output_gets_unix_line_ends() {
    assert_eq!(normalize_pty_output(b"Password: \r\nok\rdone"), "Password: \nok\ndone");
    assert_eq!(normalize_pty_output(b"\r\r\n"), "\n\n");
    assert_eq!(normalize_pty_output(b"x\xffy"), "x\u{fffd}y");
}

#[test]
fn keys_become_terminal_bytes() {
    let none = KeyModifiers::empty();
    let ctrl = KeyModifiers::control_only();
    assert_eq!(key_to_bytes(KeyEvent::new(KeyCode::Char('c'), ctrl)), Some(vec![0x03]));
    assert_eq!(key_to_bytes(KeyEvent::new(KeyCode::Char('d'), ctrl)), Some(vec![0x04]));
    assert_eq!(key_to_bytes(KeyEvent::new(KeyCode::Char('q'), ctrl)), Some(vec![0x11]));
    assert_eq!(key_to_bytes(KeyEvent::new(KeyCode::Char('x'), ctrl)), None);
    assert_eq!(key_to_bytes(KeyEvent::new(KeyCode::Enter, ctrl)), None);
    assert_eq!(key_to_bytes(KeyEvent::new(KeyCode::Enter, none)), Some(vec![b'\r']));
    assert_eq!(key_to_bytes(KeyEvent::new(KeyCode::Tab, none)), Some(vec![b'\t']));
    assert_eq!(key_to_bytes(KeyEvent::new(KeyCode::Backspace, none)), Some(vec![0x7f]));
    assert_eq!(key_to_bytes(KeyEvent::new(KeyCode::Esc, none)), Some(vec![0x1b]));
    assert_eq!(key_to_bytes(KeyEvent::new(KeyCode::Char('a'), none)), Some(vec![b'a']));
    assert_eq!(key_to_bytes(KeyEvent::new(KeyCode::Up, none)), None);
}

#[test]
fn utf8_encoding_matches_std() {
    for c in ['a', '\u{7f}', 'é', '\u{7ff}', '€', '\u{ffff}', '😀', '\u{10ffff}'] {
        let mut buf = [0u8; 4];
        assert_eq!(encode_utf8(c), c.encode_utf8(&mut buf).as_bytes().to_vec());
    }
}

#[test]
fn start_time_is_the_twenty_second_stat_field() {
    let stat = "1234 (my prog) S 1 1234 1234 34816 1234 4194304 100 0 0 0 5 3 0 0 20 0 1 0 987654 1000 100";
    assert_eq!(parse_process_start_time(stat), Ok(987654));
    let tricky = "1 (a) b) S 1 1 1 0 -1 4194560 1 0 0 0 0 0 0 0 20 0 1 0 55 0 0";
    assert_eq!(parse_process_start_time(tricky), Ok(55));
    assert_eq!(parse_process_start_time("no paren here"), Err(StartTimeError::Malformed));
    assert_eq!(parse_process_start_time("1 (x) S 1 2"), Err(StartTimeError::FieldMissing));
    let bad = "1 (x) S 1 1 1 0 -1 4194560 1 0 0 0 0 0 0 0 20 0 1 0 12a 0";
    assert_eq!(parse_process_start_time(bad), Err(StartTimeError::NotANumber));
}

#[test]
fn u64_parsing_matches_std() {
    for s in ["0", "42", "+7", "18446744073709551615", "18446744073709551616", "", "+", "-1", "1 ", "007"] {
        assert_eq!(parse_u64(s), s.parse::<u64>().ok(), "{s}");
    }
}
