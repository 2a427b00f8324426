//! Key presses, as the terminal reports them, and the unit commands bound to keys.
use vstd::prelude::*;
use crate::models::UnitAction;
use crate::text::str_eq;

verus! {

/// The key that was pressed.
#[derive(Debug, Clone, Copy, PartialEq, Eq, Structural)]
pub enum KeyCode {
    Char(char),
    Enter,
    Esc,
    Left,
    Right,
    Up,
    Down,
    Backspace,
    Tab,
    /// Any key the interface does not bind.
    Other,
}

/// The modifier keys held with a key press.
#[derive(Debug, Clone, Copy, PartialEq, Eq, Structural)]
pub struct KeyModifiers {
    pub shift: bool,
    pub control: bool,
    /// Alt, Super, Hyper or Meta.
    pub other: bool,
}

impl KeyModifiers {
    /// No modifier held.
    pub fn empty() -> (r: KeyModifiers)
        ensures
            r == KeyModifiers::none(),
    {
        KeyModifiers { shift: false, control: false, other: false }
    }

    /// Only Shift held.
    pub fn shift_only() -> (r: KeyModifiers)
        ensures
            r == (KeyModifiers { shift: true, control: false, other: false }),
    {
        KeyModifiers { shift: true, control: false, other: false }
    }

    /// Only Control held.
    pub fn control_only() -> (r: KeyModifiers)
        ensures
            r == (KeyModifiers { shift: false, control: true, other: false }),
    {
        KeyModifiers { shift: false, control: true, other: false }
    }

    /// No modifier held.
    pub open spec fn none() -> KeyModifiers {
        KeyModifiers { shift: false, control: false, other: false }
    }
}

/// One key press.
#[derive(Debug, Clone, Copy, PartialEq, Eq, Structural)]
pub struct KeyEvent {
    pub code: KeyCode,
    pub modifiers: KeyModifiers,
}

impl KeyEvent {
    /// A key press with the given modifiers.
    pub fn new(code: KeyCode, modifiers: KeyModifiers) -> (r: KeyEvent)
        ensures
            r.code == code,
            r.modifiers == modifiers,
    {
        KeyEvent { code, modifiers }
    }

    /// Control is held.
    pub open spec fn ctrl(self) -> bool {
        self.modifiers.control
    }
}

/// The unit command bound to a key: no modifier but Shift, and one of
/// `s t r R e d m u`.
pub open spec fn command_for_key(key: KeyEvent) -> Option<Seq<char>> {
    if key.modifiers.control || key.modifiers.other {
        None
    } else {
        match key.code {
            KeyCode::Char('s') => Some("start"@),
            KeyCode::Char('t') => Some("stop"@),
            KeyCode::Char('r') => Some("restart"@),
            KeyCode::Char('R') => Some("reload"@),
            KeyCode::Char('e') => Some("enable"@),
            KeyCode::Char('d') => Some("disable"@),
            KeyCode::Char('m') => Some("mask"@),
            KeyCode::Char('u') => Some("unmask"@),
            _ => None,
        }
    }
}

/// The name of the unit command bound to `key`, if any.
pub fn unit_command_for_key(key: KeyEvent) -> (r: Option<&'static str>)
    ensures
        match r {
            Some(name) => command_for_key(key) == Some(name@),
            None => command_for_key(key) is None,
        },
{
    if key.modifiers.control || key.modifiers.other {
        return None;
    }
    match key.code {
        KeyCode::Char('s') => Some("start"),
        KeyCode::Char('t') => Some("stop"),
        KeyCode::Char('r') => Some("restart"),
        KeyCode::Char('R') => Some("reload"),
        KeyCode::Char('e') => Some("enable"),
        KeyCode::Char('d') => Some("disable"),
        KeyCode::Char('m') => Some("mask"),
        KeyCode::Char('u') => Some("unmask"),
        _ => None,
    }
}

/// The `systemctl` verb that runs an action.
pub open spec fn action_verb(action: UnitAction) -> Seq<char> {
    match action {
        UnitAction::Start => "start"@,
        UnitAction::Stop => "stop"@,
        UnitAction::Restart => "restart"@,
        UnitAction::Reload => "reload"@,
        UnitAction::Enable => "enable"@,
        UnitAction::Disable => "disable"@,
        UnitAction::Mask => "mask"@,
        UnitAction::Unmask => "unmask"@,
        UnitAction::ResetFailed => "reset-failed"@,
    }
}

/// The action a command name stands for.
pub open spec fn command_action(name: Seq<char>) -> Option<UnitAction> {
    if name == "start"@ {
        Some(UnitAction::Start)
    } else if name == "stop"@ {
        Some(UnitAction::Stop)
    } else if name == "restart"@ {
        Some(UnitAction::Restart)
    } else if name == "reload"@ {
        Some(UnitAction::Reload)
    } else if name == "enable"@ {
        Some(UnitAction::Enable)
    } else if name == "disable"@ {
        Some(UnitAction::Disable)
    } else if name == "mask"@ {
        Some(UnitAction::Mask)
    } else if name == "unmask"@ {
        Some(UnitAction::Unmask)
    } else {
        None
    }
}

/// The action a command name stands for.
pub fn unit_action_for_command(name: &str) -> (r: Option<UnitAction>)
    ensures
        r == command_action(name@),
{
    if str_eq(name, "start") {
        Some(UnitAction::Start)
    } else if str_eq(name, "stop") {
        Some(UnitAction::Stop)
    } else if str_eq(name, "restart") {
        Some(UnitAction::Restart)
    } else if str_eq(name, "reload") {
        Some(UnitAction::Reload)
    } else if str_eq(name, "enable") {
        Some(UnitAction::Enable)
    } else if str_eq(name, "disable") {
        Some(UnitAction::Disable)
    } else if str_eq(name, "mask") {
        Some(UnitAction::Mask)
    } else if str_eq(name, "unmask") {
        Some(UnitAction::Unmask)
    } else {
        None
    }
}

} // verus!
