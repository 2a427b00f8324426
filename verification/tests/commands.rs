use lazysysd::commands::{
    decimal_string, edit_draft_file_name, editor_candidates, editor_shell_command, is_session_scope, journalctl_args,
    log_draft_name, normalize_edit_content, systemctl_edit_args,
};
use lazysysd::models::UnitEditMode;

#[test]
fn drafts_end_with_a_newline() {
    assert_eq!(normalize_edit_content("[Service]"), "[Service]\n");
    assert_eq!(normalize_edit_content("[Service]\n"), "[Service]\n");
    assert_eq!(normalize_edit_content(""), "\n");
}

#[test]
fn systemctl_edit_arguments() {
    assert_eq!(
        systemctl_edit_args("global", UnitEditMode::Override, "ssh.service"),
        vec!["edit", "--drop-in=override.conf", "--stdin", "ssh.service"]
    );
    assert_eq!(
        systemctl_edit_args("session", UnitEditMode::Full, "app.service"),
        vec!["--user", "edit", "--full", "--stdin", "app.service"]
    );
}

#[test]
fn journalctl_arguments() {
    assert_eq!(journalctl_args("ssh.service", "global", 500), vec!["-u", "ssh.service", "-n", "500", "--no-pager"]);
    assert_eq!(journalctl_args("a.service", "session", 0), vec!["--user", "-u", "a.service", "-n", "0", "--no-pager"]);
}

#[test]
fn decimal_numbers() {
    assert_eq!(decimal_string(0), "0");
    assert_eq!(decimal_string(9), "9");
    assert_eq!(decimal_string(1234567890), "1234567890");
    assert_eq!(decimal_string(u128::MAX), u128::MAX.to_string());
    assert!(is_session_scope("session"));
    assert!(!is_session_scope("global"));
}

#[test]
fn editor_choice_order() {
    assert_eq!(editor_candidates(Some("hx".to_string()), Some("vim".to_string())), vec!["hx"]);
    assert_eq!(editor_candidates(Some(String::new()), Some("vim".to_string())), vec!["vim"]);
    assert_eq!(editor_candidates(None, Some(String::new())), vec!["nano", "vim", "emacs", "vi"]);
    assert_eq!(editor_shell_command("nano"), "nano \"$0\"");
}

#[test]
fn draft_file_names() {
    assert_eq!(edit_draft_file_name("getty@tty1.service", UnitEditMode::Override, 42), "sdctl-getty_tty1_service-override-42.conf");
    assert_eq!(edit_draft_file_name("", UnitEditMode::Full, 7), "sdctl-unit-full-7.conf");
    assert_eq!(edit_draft_file_name("é", UnitEditMode::Full, 7), "sdctl-_-full-7.conf");
    assert_eq!(log_draft_name("log-ssh.service.txt", 99), "sdctl-log-ssh.service.txt-99.log");
}
