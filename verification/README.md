# lazysysd

A terminal interface for systemd units: browse system and session units,
filter and fuzzy-search them, read their journal and unit files, and run
unit commands and edits through polkit's text agent.

- `src/` is the library, verified with Verus: the interface state and how
  keys and background results change it (`state`, `events`, `selection`,
  `search`, `filters`), what the screens show (`display`, `screens`,
  `styles`), log lines read from their escape sequences (`ansi`), unit
  enablement resolution (`unit_files`), command lines and
  draft files (`commands`), journal output (`journal`), the authentication
  terminal (`terminal`), and properties across these (`laws`). Calls into
  outside crates and unspecified std functions sit behind the trusted items
  in `bindings` (and `push_char` in `text`).
- `app/` is the program around it: the terminal, D-Bus, `journalctl`,
  `systemctl edit`, the editor, the clipboard and the pseudo-terminal.
- `tests/` exercises the library.
