//! The command lines the application runs (`systemctl edit`, `journalctl`,
//! the text editor) and the files it prepares for them.
use vstd::prelude::*;
use crate::models::UnitEditMode;
use crate::text::{ends_with, has_suffix, is_ascii_alnum, is_ascii_alphanumeric, push_char, push_str, str_eq};

verus! {

/// The name of the drop-in file an override edit writes.
pub const DEFAULT_DROP_IN: &'static str = "override.conf";

/// Whether a unit scope is the user's session manager (else the system one).
pub fn is_session_scope(scope: &str) -> (r: bool)
    ensures
        r == (scope@ == "session"@),
{
    str_eq(scope, "session")
}

/// The decimal digit for `d < 10`.
pub open spec fn digit_char(d: nat) -> char {
    if d == 0 { '0' }
    else if d == 1 { '1' }
    else if d == 2 { '2' }
    else if d == 3 { '3' }
    else if d == 4 { '4' }
    else if d == 5 { '5' }
    else if d == 6 { '6' }
    else if d == 7 { '7' }
    else if d == 8 { '8' }
    else { '9' }
}

/// The decimal notation of `n`, with no leading zeros.
pub open spec fn decimal(n: nat) -> Seq<char>
    decreases n,
{
    if n < 10 {
        seq![digit_char(n)]
    } else {
        decimal(n / 10).push(digit_char(n % 10))
    }
}

fn digit(d: u128) -> (c: char)
    requires
        d < 10,
    ensures
        c == digit_char(d as nat),
{
    if d == 0 { '0' }
    else if d == 1 { '1' }
    else if d == 2 { '2' }
    else if d == 3 { '3' }
    else if d == 4 { '4' }
    else if d == 5 { '5' }
    else if d == 6 { '6' }
    else if d == 7 { '7' }
    else if d == 8 { '8' }
    else { '9' }
}

/// `n` in decimal (`n.to_string()`).
pub fn decimal_string(n: u128) -> (r: String)
    ensures
        r@ == decimal(n as nat),
    decreases n,
{
    if n < 10 {
        let mut s = String::new();
        push_char(&mut s, digit(n));
        s
    } else {
        let mut s = decimal_string(n / 10);
        push_char(&mut s, digit(n % 10));
        s
    }
}

/// The text streamed to `systemctl edit --stdin`: the draft, ending in a newline.
pub open spec fn normalized_edit(content: Seq<char>) -> Seq<char> {
    if has_suffix(content, "\n"@) {
        content
    } else {
        content.push('\n')
    }
}

/// Adds a final newline to a draft that lacks one.
pub fn normalize_edit_content(content: &str) -> (r: String)
    ensures
        r@ == normalized_edit(content@),
{
    let mut r = content.to_string();
    if !ends_with(content, "\n") {
        push_char(&mut r, '\n');
    }
    r
}

/// `--user` for the session scope, nothing for the system scope.
pub open spec fn scope_flag(scope: Seq<char>) -> Seq<Seq<char>> {
    if scope == "session"@ {
        seq!["--user"@]
    } else {
        Seq::empty()
    }
}

/// The arguments of `systemctl` that apply a draft of `unit_name` read from
/// standard input: as the `override.conf` drop-in, or as a full replacement.
pub open spec fn edit_arguments(scope: Seq<char>, mode: UnitEditMode, unit_name: Seq<char>) -> Seq<Seq<char>> {
    let mode_flag = match mode {
        UnitEditMode::Override => "--drop-in=override.conf"@,
        UnitEditMode::Full => "--full"@,
    };
    scope_flag(scope) + seq!["edit"@, mode_flag, "--stdin"@, unit_name]
}

/// The views of a vector of strings.
pub open spec fn arg_views(v: Seq<String>) -> Seq<Seq<char>> {
    v.map_values(|s: String| s@)
}

fn push_arg(args: &mut Vec<String>, arg: &str)
    ensures
        arg_views(final(args)@) == arg_views(old(args)@).push(arg@),
{
    args.push(arg.to_string());
    assert(arg_views(args@) =~= arg_views(old(args)@).push(arg@));
}

fn scope_args(scope: &str) -> (r: Vec<String>)
    ensures
        arg_views(r@) == scope_flag(scope@),
{
    let mut args: Vec<String> = Vec::new();
    if is_session_scope(scope) {
        push_arg(&mut args, "--user");
    }
    assert(arg_views(args@) =~= scope_flag(scope@));
    args
}

/// The arguments `systemctl` gets to apply an edit of `unit_name`.
pub fn systemctl_edit_args(scope: &str, mode: UnitEditMode, unit_name: &str) -> (r: Vec<String>)
    ensures
        arg_views(r@) == edit_arguments(scope@, mode, unit_name@),
{
    let mut args = scope_args(scope);
    push_arg(&mut args, "edit");
    match mode {
        UnitEditMode::Override => {
            let mut flag = String::from_str("--drop-in=");
            push_str(&mut flag, DEFAULT_DROP_IN);
            proof {
                reveal_strlit("--drop-in=");
                reveal_strlit("override.conf");
                reveal_strlit("--drop-in=override.conf");
                assert(flag@ =~= "--drop-in=override.conf"@);
            }
            push_arg(&mut args, flag.as_str());
        },
        UnitEditMode::Full => push_arg(&mut args, "--full"),
    }
    push_arg(&mut args, "--stdin");
    push_arg(&mut args, unit_name);
    assert(arg_views(args@) =~= edit_arguments(scope@, mode, unit_name@));
    args
}

/// The arguments of `journalctl` that print the last `limit` entries of
/// `unit_name` without a pager.
pub open spec fn journal_arguments(scope: Seq<char>, unit_name: Seq<char>, limit: nat) -> Seq<Seq<char>> {
    scope_flag(scope) + seq!["-u"@, unit_name, "-n"@, decimal(limit), "--no-pager"@]
}

/// The arguments `journalctl` gets to fetch the logs of a unit.
pub fn journalctl_args(unit_name: &str, scope: &str, limit: usize) -> (r: Vec<String>)
    ensures
        arg_views(r@) == journal_arguments(scope@, unit_name@, limit as nat),
{
    let mut args = scope_args(scope);
    push_arg(&mut args, "-u");
    push_arg(&mut args, unit_name);
    push_arg(&mut args, "-n");
    let count = decimal_string(limit as u128);
    push_arg(&mut args, count.as_str());
    push_arg(&mut args, "--no-pager");
    assert(arg_views(args@) =~= journal_arguments(scope@, unit_name@, limit as nat));
    args
}

/// The shell command that opens the file named by `$0` in `editor`.
pub open spec fn editor_command(editor: Seq<char>) -> Seq<char> {
    editor + " \"$0\""@
}

/// Builds the shell command that runs `editor` on the draft file.
pub fn editor_shell_command(editor: &str) -> (r: String)
    ensures
        r@ == editor_command(editor@),
{
    let mut r = editor.to_string();
    push_str(&mut r, " \"$0\"");
    r
}

/// The editors tried in order: `$VISUAL` if set and non-empty, else `$EDITOR`
/// if set and non-empty, else nano, vim, emacs and vi.
pub open spec fn editor_choices(visual: Option<Seq<char>>, editor: Option<Seq<char>>) -> Seq<Seq<char>> {
    match visual {
        Some(v) if v.len() > 0 => seq![v],
        _ => match editor {
            Some(e) if e.len() > 0 => seq![e],
            _ => seq!["nano"@, "vim"@, "emacs"@, "vi"@],
        },
    }
}

/// The text of an optional string.
pub open spec fn opt_view(o: Option<String>) -> Option<Seq<char>> {
    match o {
        Some(s) => Some(s@),
        None => None,
    }
}

/// The editors to look for, given the values of `$VISUAL` and `$EDITOR`.
pub fn editor_candidates(visual: Option<String>, editor: Option<String>) -> (r: Vec<String>)
    ensures
        arg_views(r@) == editor_choices(opt_view(visual), opt_view(editor)),
{
    let mut r: Vec<String> = Vec::new();
    match visual {
        Some(v) if !v.as_str().is_empty() => {
            push_arg(&mut r, v.as_str());
        },
        _ => match editor {
            Some(e) if !e.as_str().is_empty() => {
                push_arg(&mut r, e.as_str());
            },
            _ => {
                push_arg(&mut r, "nano");
                push_arg(&mut r, "vim");
                push_arg(&mut r, "emacs");
                push_arg(&mut r, "vi");
            },
        },
    }
    assert(arg_views(r@) =~= editor_choices(opt_view(visual), opt_view(editor)));
    r
}

/// Each character that is not an ASCII letter or digit replaced by `'_'`.
pub open spec fn sanitized(name: Seq<char>) -> Seq<char> {
    name.map_values(|c: char| if is_ascii_alnum(c) { c } else { '_' })
}

/// The file name of the draft of `unit_name` in `mode`, made unique by `unique`.
pub open spec fn draft_file_name(unit_name: Seq<char>, mode: UnitEditMode, unique: nat) -> Seq<char> {
    let name = if sanitized(unit_name).len() == 0 { "unit"@ } else { sanitized(unit_name) };
    let label = match mode {
        UnitEditMode::Override => "override"@,
        UnitEditMode::Full => "full"@,
    };
    "sdctl-"@ + name + "-"@ + label + "-"@ + decimal(unique) + ".conf"@
}

/// Names the temporary file a unit draft is edited in.
pub fn edit_draft_file_name(unit_name: &str, mode: UnitEditMode, unique: u128) -> (r: String)
    ensures
        r@ == draft_file_name(unit_name@, mode, unique as nat),
{
    let mut name = String::new();
    for c in it: unit_name.chars()
        invariant
            name@ == sanitized(it.seq().take(it.index() as int)),
    {
        let ghost before = it.seq().take(it.index() as int);
        if is_ascii_alphanumeric(c) {
            push_char(&mut name, c);
        } else {
            push_char(&mut name, '_');
        }
        proof {
            assert(it.seq().take(it.index() + 1).drop_last() == before);
            assert(name@ =~= sanitized(it.seq().take(it.index() + 1)));
        }
    }
    let mut r = String::from_str("sdctl-");
    if name.as_str().is_empty() {
        push_str(&mut r, "unit");
    } else {
        push_str(&mut r, name.as_str());
    }
    push_str(&mut r, "-");
    match mode {
        UnitEditMode::Override => push_str(&mut r, "override"),
        UnitEditMode::Full => push_str(&mut r, "full"),
    }
    push_str(&mut r, "-");
    let n = decimal_string(unique);
    push_str(&mut r, n.as_str());
    push_str(&mut r, ".conf");
    r
}

/// The file name a log excerpt named `filename` is edited in.
pub open spec fn log_draft_file_name(filename: Seq<char>, unique: nat) -> Seq<char> {
    "sdctl-"@ + filename + "-"@ + decimal(unique) + ".log"@
}

/// Names the temporary file a log excerpt is opened in.
pub fn log_draft_name(filename: &str, unique: u128) -> (r: String)
    ensures
        r@ == log_draft_file_name(filename@, unique as nat),
{
    let mut r = String::from_str("sdctl-");
    push_str(&mut r, filename);
    push_str(&mut r, "-");
    let n = decimal_string(unique);
    push_str(&mut r, n.as_str());
    push_str(&mut r, ".log");
    r
}

} // verus!
