use lazysysd::journal::{strip_ansi_content, JournalManager};

#[test]
fn stripping_removes_escape_sequences() {
    assert_eq!(strip_ansi_content("\u{1b}[31mred\u{1b}[0m plain"), "red plain");
    assert_eq!(strip_ansi_content("a\n\u{1b}[1mb\u{1b}[0m\n"), "a\nb");
    assert_eq!(strip_ansi_content("no colour"), "no colour");
    assert_eq!(strip_ansi_content(""), "");
}

#[test]
fn journal_output_is_split_and_highlighted() {
    let manager = JournalManager::new();
    let lines = manager.log_lines(b"started 42 workers\nplain\n");
    assert_eq!(lines.len(), 2);
    assert!(lines[0].contains("\u{1b}["));
    assert_eq!(strip_ansi_content(&lines[0]), "started 42 workers");
    assert_eq!(strip_ansi_content(&lines[1]), "plain");
    assert!(manager.log_lines(b"").is_empty());
}

#[test]
fn invalid_utf8_is_replaced() {
    let manager = JournalManager::new();
    let lines = manager.log_lines(b"bad \xff byte");
    assert_eq!(strip_ansi_content(&lines[0]), "bad \u{fffd} byte");
    assert_eq!(JournalManager::failure_message(b"no \xfe"), "journalctl failed: no \u{fffd}");
}
