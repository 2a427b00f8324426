//! The values the application passes around: units, their states, edits and
//! privileged actions.
use vstd::prelude::*;
use crate::text::{chars_of, last_index_of, last_position, push_str, str_eq, string_of_range};

verus! {

/// A terminal colour, by name; the terminal front end maps it to its own palette.
#[derive(Debug, Clone, Copy, PartialEq, Eq, Structural)]
pub enum Color {
    Black,
    Blue,
    Cyan,
    DarkGray,
    Gray,
    Green,
    LightCyan,
    LightMagenta,
    LightRed,
    LightYellow,
    Magenta,
    Red,
    White,
    Yellow,
    LightGreen,
    LightBlue,
    /// The terminal's own default colour.
    Reset,
    /// An entry of the 256-colour palette.
    Indexed(u8),
    /// A 24-bit colour.
    Rgb(u8, u8, u8),
}

/// How a unit file is edited: as a drop-in override or as a full replacement.
#[derive(Debug, Clone, Copy, PartialEq, Eq, Structural)]
pub enum UnitEditMode {
    Override,
    Full,
}

pub open spec fn edit_mode_action_label(mode: UnitEditMode) -> Seq<char> {
    match mode {
        UnitEditMode::Override => "override"@,
        UnitEditMode::Full => "full replacement"@,
    }
}

pub open spec fn edit_mode_draft_prefix(mode: UnitEditMode) -> Seq<char> {
    match mode {
        UnitEditMode::Override => "Draft Override: "@,
        UnitEditMode::Full => "Draft Replacement: "@,
    }
}

impl UnitEditMode {
    /// The word used for this mode in prompts.
    pub fn action_label(self) -> (r: &'static str)
        ensures
            r@ == edit_mode_action_label(self),
    {
        match self {
            UnitEditMode::Override => "override",
            UnitEditMode::Full => "full replacement",
        }
    }

    /// The title shown over a draft of `unit_name` in this mode.
    pub fn draft_label(self, unit_name: &str) -> (r: String)
        ensures
            r@ == edit_mode_draft_prefix(self) + unit_name@,
    {
        let prefix = match self {
            UnitEditMode::Override => "Draft Override: ",
            UnitEditMode::Full => "Draft Replacement: ",
        };
        let mut r = String::from_str(prefix);
        push_str(&mut r, unit_name);
        r
    }
}

/// A request to open a unit file in an external editor.
pub struct EditRequest {
    pub unit_name: String,
    pub scope: String,
    pub mode: UnitEditMode,
    pub initial_content: String,
    pub restore_content: String,
    pub restore_path: String,
}

impl Clone for EditRequest {
    fn clone(&self) -> (r: Self)
        ensures
            r == *self,
    {
        EditRequest {
            unit_name: self.unit_name.clone(),
            scope: self.scope.clone(),
            mode: self.mode,
            initial_content: self.initial_content.clone(),
            restore_content: self.restore_content.clone(),
            restore_path: self.restore_path.clone(),
        }
    }
}

/// An edited draft waiting for the user to apply or discard it.
pub struct EditReview {
    pub unit_name: String,
    pub scope: String,
    pub mode: UnitEditMode,
    pub edited_content: String,
    pub restore_content: String,
    pub restore_path: String,
}

impl Clone for EditReview {
    fn clone(&self) -> (r: Self)
        ensures
            r == *self,
    {
        EditReview {
            unit_name: self.unit_name.clone(),
            scope: self.scope.clone(),
            mode: self.mode,
            edited_content: self.edited_content.clone(),
            restore_content: self.restore_content.clone(),
            restore_path: self.restore_path.clone(),
        }
    }
}

/// A systemd operation on one unit.
#[derive(Debug, Clone, Copy, PartialEq, Eq, Structural)]
pub enum UnitAction {
    Start,
    Stop,
    Restart,
    Reload,
    Enable,
    Disable,
    Mask,
    Unmask,
    ResetFailed,
}

/// An operation that needs authorization before it runs.
pub enum PrivilegedAction {
    UnitCommand { unit_name: String, scope: String, action: UnitAction },
    ApplyEdit { unit_name: String, scope: String, mode: UnitEditMode, content: String },
}

impl Clone for PrivilegedAction {
    fn clone(&self) -> (r: Self)
        ensures
            r == *self,
    {
        match self {
            PrivilegedAction::UnitCommand { unit_name, scope, action } => PrivilegedAction::UnitCommand {
                unit_name: unit_name.clone(),
                scope: scope.clone(),
                action: *action,
            },
            PrivilegedAction::ApplyEdit { unit_name, scope, mode, content } => PrivilegedAction::ApplyEdit {
                unit_name: unit_name.clone(),
                scope: scope.clone(),
                mode: *mode,
                content: content.clone(),
            },
        }
    }
}

/// The outcome of a privileged operation.
pub struct AttemptResult {
    pub success: bool,
    pub error: Option<String>,
}

/// What arrives from background work: unit lists, logs, files, terminal output.
pub enum AppInternalEvent {
    PtyOutput(String),
    PtyClosed,
    AuthResult(AttemptResult),
    UnitsLoaded(Vec<UnitInfo>),
    LogsLoaded(Vec<String>),
    FileLoaded(String, String),
    Error(String),
}

/// Work that has to leave the terminal interface: an editor session.
pub enum PendingAction {
    EditFile(EditRequest),
    EditText { filename: String, content: String },
}

/// One systemd unit as listed.
pub struct UnitInfo {
    pub name: String,
    pub description: String,
    pub scope: String,
    pub load_state: String,
    pub active_state: String,
    pub enablement_state: String,
    pub sub_state: String,
    pub path: String,
}

impl Clone for UnitInfo {
    fn clone(&self) -> (r: Self)
        ensures
            r == *self,
    {
        UnitInfo {
            name: self.name.clone(),
            description: self.description.clone(),
            scope: self.scope.clone(),
            load_state: self.load_state.clone(),
            active_state: self.active_state.clone(),
            enablement_state: self.enablement_state.clone(),
            sub_state: self.sub_state.clone(),
            path: self.path.clone(),
        }
    }
}

/// A label that does not name any variant.
#[derive(Debug, Clone, Copy, PartialEq, Eq)]
pub struct ParseLabelError;

/// The kind of a unit, given by the suffix of its name.
#[derive(Debug, Clone, Copy, PartialEq, Eq, Hash, Structural)]
pub enum UnitType {
    Unknown,
    Service,
    Socket,
    Target,
    Device,
    Mount,
    Automount,
    Timer,
    Path,
    Slice,
    Scope,
    Swap,
}

pub open spec fn unit_type_label(t: UnitType) -> Seq<char> {
    match t {
        UnitType::Unknown => "unknown"@,
        UnitType::Service => "service"@,
        UnitType::Socket => "socket"@,
        UnitType::Target => "target"@,
        UnitType::Device => "device"@,
        UnitType::Mount => "mount"@,
        UnitType::Automount => "automount"@,
        UnitType::Timer => "timer"@,
        UnitType::Path => "path"@,
        UnitType::Slice => "slice"@,
        UnitType::Scope => "scope"@,
        UnitType::Swap => "swap"@,
    }
}

/// The type whose label is exactly `s`.
pub open spec fn parse_unit_type(s: Seq<char>) -> Option<UnitType> {
    if s == "unknown"@ {
        Some(UnitType::Unknown)
    } else if s == "service"@ {
        Some(UnitType::Service)
    } else if s == "socket"@ {
        Some(UnitType::Socket)
    } else if s == "target"@ {
        Some(UnitType::Target)
    } else if s == "device"@ {
        Some(UnitType::Device)
    } else if s == "mount"@ {
        Some(UnitType::Mount)
    } else if s == "automount"@ {
        Some(UnitType::Automount)
    } else if s == "timer"@ {
        Some(UnitType::Timer)
    } else if s == "path"@ {
        Some(UnitType::Path)
    } else if s == "slice"@ {
        Some(UnitType::Slice)
    } else if s == "scope"@ {
        Some(UnitType::Scope)
    } else if s == "swap"@ {
        Some(UnitType::Swap)
    } else {
        None
    }
}

/// The type named by `s`, `Unknown` for any other text.
pub open spec fn unit_type_of_label(s: Seq<char>) -> UnitType {
    match parse_unit_type(s) {
        Some(t) => t,
        None => UnitType::Unknown,
    }
}

/// The type of a unit named `name`: the one named after its last `'.'`.
pub open spec fn unit_type_of_name(name: Seq<char>) -> UnitType {
    let dot = last_index_of(name, '.');
    if dot < 0 {
        UnitType::Unknown
    } else {
        unit_type_of_label(name.skip(dot + 1))
    }
}

impl UnitType {
    /// The label of this type.
    pub fn as_str(self) -> (r: &'static str)
        ensures
            r@ == unit_type_label(self),
    {
        match self {
            UnitType::Unknown => "unknown",
            UnitType::Service => "service",
            UnitType::Socket => "socket",
            UnitType::Target => "target",
            UnitType::Device => "device",
            UnitType::Mount => "mount",
            UnitType::Automount => "automount",
            UnitType::Timer => "timer",
            UnitType::Path => "path",
            UnitType::Slice => "slice",
            UnitType::Scope => "scope",
            UnitType::Swap => "swap",
        }
    }

    /// The type labelled `value`; `Unknown` for any other text.
    pub fn from_str(value: &str) -> (r: UnitType)
        ensures
            r == unit_type_of_label(value@),
    {
        match parse_unit_type_label(value) {
            Some(t) => t,
            None => UnitType::Unknown,
        }
    }

    /// The type of the unit called `unit_name`, from the text after its last `'.'`.
    pub fn from_unit_name(unit_name: &str) -> (r: UnitType)
        ensures
            r == unit_type_of_name(unit_name@),
    {
        let v = chars_of(unit_name);
        match last_position(&v, '.') {
            None => UnitType::Unknown,
            Some(dot) => {
                let suffix = string_of_range(&v, dot + 1, v.len());
                assert(suffix@ == unit_name@.skip(dot + 1));
                UnitType::from_str(suffix.as_str())
            },
        }
    }

    /// The colour a unit of this type is shown in.
    pub fn color(self) -> (r: Color)
        ensures
            r == unit_type_color(self),
    {
        match self {
            UnitType::Unknown => Color::DarkGray,
            UnitType::Service => Color::Green,
            UnitType::Socket => Color::Cyan,
            UnitType::Target => Color::Yellow,
            UnitType::Device => Color::Blue,
            UnitType::Mount => Color::Magenta,
            UnitType::Automount => Color::LightMagenta,
            UnitType::Timer => Color::Red,
            UnitType::Path => Color::White,
            UnitType::Slice => Color::LightCyan,
            UnitType::Scope => Color::Gray,
            UnitType::Swap => Color::LightRed,
        }
    }
}

pub open spec fn unit_type_color(t: UnitType) -> Color {
    match t {
        UnitType::Unknown => Color::DarkGray,
        UnitType::Service => Color::Green,
        UnitType::Socket => Color::Cyan,
        UnitType::Target => Color::Yellow,
        UnitType::Device => Color::Blue,
        UnitType::Mount => Color::Magenta,
        UnitType::Automount => Color::LightMagenta,
        UnitType::Timer => Color::Red,
        UnitType::Path => Color::White,
        UnitType::Slice => Color::LightCyan,
        UnitType::Scope => Color::Gray,
        UnitType::Swap => Color::LightRed,
    }
}

/// The type whose label is exactly `value`.
pub fn parse_unit_type_label(value: &str) -> (r: Option<UnitType>)
    ensures
        r == parse_unit_type(value@),
{
    if str_eq(value, "unknown") {
        Some(UnitType::Unknown)
    } else if str_eq(value, "service") {
        Some(UnitType::Service)
    } else if str_eq(value, "socket") {
        Some(UnitType::Socket)
    } else if str_eq(value, "target") {
        Some(UnitType::Target)
    } else if str_eq(value, "device") {
        Some(UnitType::Device)
    } else if str_eq(value, "mount") {
        Some(UnitType::Mount)
    } else if str_eq(value, "automount") {
        Some(UnitType::Automount)
    } else if str_eq(value, "timer") {
        Some(UnitType::Timer)
    } else if str_eq(value, "path") {
        Some(UnitType::Path)
    } else if str_eq(value, "slice") {
        Some(UnitType::Slice)
    } else if str_eq(value, "scope") {
        Some(UnitType::Scope)
    } else if str_eq(value, "swap") {
        Some(UnitType::Swap)
    } else {
        None
    }
}

impl core::str::FromStr for UnitType {
    type Err = ParseLabelError;

    fn from_str(s: &str) -> Result<UnitType, ParseLabelError>
        returns
            (match parse_unit_type(s@) {
                Some(x) => Ok(x),
                None => Err(ParseLabelError),
            }),
    {
        match parse_unit_type_label(s) {
            Some(t) => Ok(t),
            None => Err(ParseLabelError),
        }
    }
}

/// The systemd instance a unit belongs to: the system one or the user session.
#[derive(Debug, Clone, Copy, PartialEq, Eq, Hash, Structural)]
pub enum UnitScope {
    Global,
    Session,
}

pub open spec fn scope_label(x: UnitScope) -> Seq<char> {
    match x {
        UnitScope::Global => "global"@,
        UnitScope::Session => "session"@,
    }
}

pub open spec fn scope_color(x: UnitScope) -> Color {
    match x {
        UnitScope::Global => Color::Blue,
        UnitScope::Session => Color::Cyan,
    }
}

/// The variant whose label is exactly `s`.
pub open spec fn parse_scope(s: Seq<char>) -> Option<UnitScope> {
    if s == "global"@ {
        Some(UnitScope::Global)
    } else if s == "session"@ {
        Some(UnitScope::Session)
    } else {
        None
    }
}

impl UnitScope {
    /// The label systemd uses for this value.
    pub fn as_str(self) -> (r: &'static str)
        ensures
            r@ == scope_label(self),
    {
        match self {
            UnitScope::Global => "global",
            UnitScope::Session => "session",
        }
    }


    /// The colour this value is shown in.
    pub fn color(self) -> (r: Color)
        ensures
            r == scope_color(self),
    {
        match self {
            UnitScope::Global => Color::Blue,
            UnitScope::Session => Color::Cyan,
        }
    }
}

/// The variant whose label is exactly `value`.
pub fn parse_scope_label(value: &str) -> (r: Option<UnitScope>)
    ensures
        r == parse_scope(value@),
{
    if str_eq(value, "global") {
        Some(UnitScope::Global)
    } else if str_eq(value, "session") {
        Some(UnitScope::Session)
    } else {
        None
    }
}

impl core::str::FromStr for UnitScope {
    type Err = ParseLabelError;

    fn from_str(s: &str) -> (r: Result<UnitScope, ParseLabelError>)
        ensures
            match parse_scope(s@) {
                Some(x) => r matches Ok(y) && y == x,
                None => r is Err,
            },
    {
        match parse_scope_label(s) {
            Some(x) => Ok(x),
            None => Err(ParseLabelError),
        }
    }
}

impl Default for UnitScope {
    fn default() -> (r: UnitScope)
        ensures
            r == UnitScope::Global,
    {
        UnitScope::Global
    }
}

/// Whether systemd could load the unit's configuration.
#[derive(Debug, Clone, Copy, PartialEq, Eq, Hash, Structural)]
pub enum UnitLoadState {
    Loaded,
    NotFound,
    BadSetting,
    Error,
    Masked,
    Merged,
    Stub,
    Unknown,
}

pub open spec fn load_state_label(x: UnitLoadState) -> Seq<char> {
    match x {
        UnitLoadState::Loaded => "loaded"@,
        UnitLoadState::NotFound => "not-found"@,
        UnitLoadState::BadSetting => "bad-setting"@,
        UnitLoadState::Error => "error"@,
        UnitLoadState::Masked => "masked"@,
        UnitLoadState::Merged => "merged"@,
        UnitLoadState::Stub => "stub"@,
        UnitLoadState::Unknown => "unknown"@,
    }
}

pub open spec fn load_state_color(x: UnitLoadState) -> Color {
    match x {
        UnitLoadState::Loaded => Color::Green,
        UnitLoadState::NotFound => Color::Yellow,
        UnitLoadState::BadSetting => Color::Red,
        UnitLoadState::Error => Color::Red,
        UnitLoadState::Masked => Color::Red,
        UnitLoadState::Merged => Color::White,
        UnitLoadState::Stub => Color::White,
        UnitLoadState::Unknown => Color::White,
    }
}

/// The variant whose label is exactly `s`.
pub open spec fn parse_load_state(s: Seq<char>) -> Option<UnitLoadState> {
    if s == "loaded"@ {
        Some(UnitLoadState::Loaded)
    } else if s == "not-found"@ {
        Some(UnitLoadState::NotFound)
    } else if s == "bad-setting"@ {
        Some(UnitLoadState::BadSetting)
    } else if s == "error"@ {
        Some(UnitLoadState::Error)
    } else if s == "masked"@ {
        Some(UnitLoadState::Masked)
    } else if s == "merged"@ {
        Some(UnitLoadState::Merged)
    } else if s == "stub"@ {
        Some(UnitLoadState::Stub)
    } else if s == "unknown"@ {
        Some(UnitLoadState::Unknown)
    } else {
        None
    }
}

impl UnitLoadState {
    /// The label systemd uses for this value.
    pub fn as_str(self) -> (r: &'static str)
        ensures
            r@ == load_state_label(self),
    {
        match self {
            UnitLoadState::Loaded => "loaded",
            UnitLoadState::NotFound => "not-found",
            UnitLoadState::BadSetting => "bad-setting",
            UnitLoadState::Error => "error",
            UnitLoadState::Masked => "masked",
            UnitLoadState::Merged => "merged",
            UnitLoadState::Stub => "stub",
            UnitLoadState::Unknown => "unknown",
        }
    }


    /// The colour this value is shown in.
    pub fn color(self) -> (r: Color)
        ensures
            r == load_state_color(self),
    {
        match self {
            UnitLoadState::Loaded => Color::Green,
            UnitLoadState::NotFound => Color::Yellow,
            UnitLoadState::BadSetting => Color::Red,
            UnitLoadState::Error => Color::Red,
            UnitLoadState::Masked => Color::Red,
            UnitLoadState::Merged => Color::White,
            UnitLoadState::Stub => Color::White,
            UnitLoadState::Unknown => Color::White,
        }
    }
}

/// The variant whose label is exactly `value`.
pub fn parse_load_state_label(value: &str) -> (r: Option<UnitLoadState>)
    ensures
        r == parse_load_state(value@),
{
    if str_eq(value, "loaded") {
        Some(UnitLoadState::Loaded)
    } else if str_eq(value, "not-found") {
        Some(UnitLoadState::NotFound)
    } else if str_eq(value, "bad-setting") {
        Some(UnitLoadState::BadSetting)
    } else if str_eq(value, "error") {
        Some(UnitLoadState::Error)
    } else if str_eq(value, "masked") {
        Some(UnitLoadState::Masked)
    } else if str_eq(value, "merged") {
        Some(UnitLoadState::Merged)
    } else if str_eq(value, "stub") {
        Some(UnitLoadState::Stub)
    } else if str_eq(value, "unknown") {
        Some(UnitLoadState::Unknown)
    } else {
        None
    }
}

impl core::str::FromStr for UnitLoadState {
    type Err = ParseLabelError;

    fn from_str(s: &str) -> (r: Result<UnitLoadState, ParseLabelError>)
        ensures
            match parse_load_state(s@) {
                Some(x) => r matches Ok(y) && y == x,
                None => r is Err,
            },
    {
        match parse_load_state_label(s) {
            Some(x) => Ok(x),
            None => Err(ParseLabelError),
        }
    }
}

impl Default for UnitLoadState {
    fn default() -> (r: UnitLoadState)
        ensures
            r == UnitLoadState::Loaded,
    {
        UnitLoadState::Loaded
    }
}

/// Whether the unit is running.
#[derive(Debug, Clone, Copy, PartialEq, Eq, Hash, Structural)]
pub enum UnitActiveState {
    Active,
    Inactive,
    Failed,
    Activating,
    Deactivating,
    Maintenance,
    Reloading,
    Unknown,
}

pub open spec fn active_state_label(x: UnitActiveState) -> Seq<char> {
    match x {
        UnitActiveState::Active => "active"@,
        UnitActiveState::Inactive => "inactive"@,
        UnitActiveState::Failed => "failed"@,
        UnitActiveState::Activating => "activating"@,
        UnitActiveState::Deactivating => "deactivating"@,
        UnitActiveState::Maintenance => "maintenance"@,
        UnitActiveState::Reloading => "reloading"@,
        UnitActiveState::Unknown => "unknown"@,
    }
}

pub open spec fn active_state_color(x: UnitActiveState) -> Color {
    match x {
        UnitActiveState::Active => Color::Green,
        UnitActiveState::Inactive => Color::DarkGray,
        UnitActiveState::Failed => Color::Red,
        UnitActiveState::Activating => Color::Yellow,
        UnitActiveState::Deactivating => Color::LightYellow,
        UnitActiveState::Maintenance => Color::Magenta,
        UnitActiveState::Reloading => Color::Yellow,
        UnitActiveState::Unknown => Color::White,
    }
}

/// The variant whose label is exactly `s`.
pub open spec fn parse_active_state(s: Seq<char>) -> Option<UnitActiveState> {
    if s == "active"@ {
        Some(UnitActiveState::Active)
    } else if s == "inactive"@ {
        Some(UnitActiveState::Inactive)
    } else if s == "failed"@ {
        Some(UnitActiveState::Failed)
    } else if s == "activating"@ {
        Some(UnitActiveState::Activating)
    } else if s == "deactivating"@ {
        Some(UnitActiveState::Deactivating)
    } else if s == "maintenance"@ {
        Some(UnitActiveState::Maintenance)
    } else if s == "reloading"@ {
        Some(UnitActiveState::Reloading)
    } else if s == "unknown"@ {
        Some(UnitActiveState::Unknown)
    } else {
        None
    }
}

impl UnitActiveState {
    /// The label systemd uses for this value.
    pub fn as_str(self) -> (r: &'static str)
        ensures
            r@ == active_state_label(self),
    {
        match self {
            UnitActiveState::Active => "active",
            UnitActiveState::Inactive => "inactive",
            UnitActiveState::Failed => "failed",
            UnitActiveState::Activating => "activating",
            UnitActiveState::Deactivating => "deactivating",
            UnitActiveState::Maintenance => "maintenance",
            UnitActiveState::Reloading => "reloading",
            UnitActiveState::Unknown => "unknown",
        }
    }


    /// The colour this value is shown in.
    pub fn color(self) -> (r: Color)
        ensures
            r == active_state_color(self),
    {
        match self {
            UnitActiveState::Active => Color::Green,
            UnitActiveState::Inactive => Color::DarkGray,
            UnitActiveState::Failed => Color::Red,
            UnitActiveState::Activating => Color::Yellow,
            UnitActiveState::Deactivating => Color::LightYellow,
            UnitActiveState::Maintenance => Color::Magenta,
            UnitActiveState::Reloading => Color::Yellow,
            UnitActiveState::Unknown => Color::White,
        }
    }
}

/// The variant whose label is exactly `value`.
pub fn parse_active_state_label(value: &str) -> (r: Option<UnitActiveState>)
    ensures
        r == parse_active_state(value@),
{
    if str_eq(value, "active") {
        Some(UnitActiveState::Active)
    } else if str_eq(value, "inactive") {
        Some(UnitActiveState::Inactive)
    } else if str_eq(value, "failed") {
        Some(UnitActiveState::Failed)
    } else if str_eq(value, "activating") {
        Some(UnitActiveState::Activating)
    } else if str_eq(value, "deactivating") {
        Some(UnitActiveState::Deactivating)
    } else if str_eq(value, "maintenance") {
        Some(UnitActiveState::Maintenance)
    } else if str_eq(value, "reloading") {
        Some(UnitActiveState::Reloading)
    } else if str_eq(value, "unknown") {
        Some(UnitActiveState::Unknown)
    } else {
        None
    }
}

impl core::str::FromStr for UnitActiveState {
    type Err = ParseLabelError;

    fn from_str(s: &str) -> (r: Result<UnitActiveState, ParseLabelError>)
        ensures
            match parse_active_state(s@) {
                Some(x) => r matches Ok(y) && y == x,
                None => r is Err,
            },
    {
        match parse_active_state_label(s) {
            Some(x) => Ok(x),
            None => Err(ParseLabelError),
        }
    }
}

impl Default for UnitActiveState {
    fn default() -> (r: UnitActiveState)
        ensures
            r == UnitActiveState::Active,
    {
        UnitActiveState::Active
    }
}

/// How the unit file is installed.
#[derive(Debug, Clone, Copy, PartialEq, Eq, Hash, Structural)]
pub enum UnitEnablementState {
    Enabled,
    EnabledRuntime,
    Linked,
    LinkedRuntime,
    Masked,
    MaskedRuntime,
    Static,
    Disabled,
    DisabledRuntime,
    Invalid,
    Indirect,
    Alias,
    Generated,
    Transient,
    Unknown,
}

pub open spec fn enablement_state_label(x: UnitEnablementState) -> Seq<char> {
    match x {
        UnitEnablementState::Enabled => "enabled"@,
        UnitEnablementState::EnabledRuntime => "enabled-runtime"@,
        UnitEnablementState::Linked => "linked"@,
        UnitEnablementState::LinkedRuntime => "linked-runtime"@,
        UnitEnablementState::Masked => "masked"@,
        UnitEnablementState::MaskedRuntime => "masked-runtime"@,
        UnitEnablementState::Static => "static"@,
        UnitEnablementState::Disabled => "disabled"@,
        UnitEnablementState::DisabledRuntime => "disabled-runtime"@,
        UnitEnablementState::Invalid => "invalid"@,
        UnitEnablementState::Indirect => "indirect"@,
        UnitEnablementState::Alias => "alias"@,
        UnitEnablementState::Generated => "generated"@,
        UnitEnablementState::Transient => "transient"@,
        UnitEnablementState::Unknown => "unknown"@,
    }
}

pub open spec fn enablement_state_color(x: UnitEnablementState) -> Color {
    match x {
        UnitEnablementState::Enabled => Color::Green,
        UnitEnablementState::EnabledRuntime => Color::Green,
        UnitEnablementState::Linked => Color::Cyan,
        UnitEnablementState::LinkedRuntime => Color::Cyan,
        UnitEnablementState::Masked => Color::Red,
        UnitEnablementState::MaskedRuntime => Color::Red,
        UnitEnablementState::Static => Color::Cyan,
        UnitEnablementState::Disabled => Color::DarkGray,
        UnitEnablementState::DisabledRuntime => Color::DarkGray,
        UnitEnablementState::Invalid => Color::Red,
        UnitEnablementState::Indirect => Color::Cyan,
        UnitEnablementState::Alias => Color::Cyan,
        UnitEnablementState::Generated => Color::Cyan,
        UnitEnablementState::Transient => Color::Yellow,
        UnitEnablementState::Unknown => Color::Yellow,
    }
}

/// The variant whose label is exactly `s`.
pub open spec fn parse_enablement_state(s: Seq<char>) -> Option<UnitEnablementState> {
    if s == "enabled"@ {
        Some(UnitEnablementState::Enabled)
    } else if s == "enabled-runtime"@ {
        Some(UnitEnablementState::EnabledRuntime)
    } else if s == "linked"@ {
        Some(UnitEnablementState::Linked)
    } else if s == "linked-runtime"@ {
        Some(UnitEnablementState::LinkedRuntime)
    } else if s == "masked"@ {
        Some(UnitEnablementState::Masked)
    } else if s == "masked-runtime"@ {
        Some(UnitEnablementState::MaskedRuntime)
    } else if s == "static"@ {
        Some(UnitEnablementState::Static)
    } else if s == "disabled"@ {
        Some(UnitEnablementState::Disabled)
    } else if s == "disabled-runtime"@ {
        Some(UnitEnablementState::DisabledRuntime)
    } else if s == "invalid"@ {
        Some(UnitEnablementState::Invalid)
    } else if s == "indirect"@ {
        Some(UnitEnablementState::Indirect)
    } else if s == "alias"@ {
        Some(UnitEnablementState::Alias)
    } else if s == "generated"@ {
        Some(UnitEnablementState::Generated)
    } else if s == "transient"@ {
        Some(UnitEnablementState::Transient)
    } else if s == "unknown"@ {
        Some(UnitEnablementState::Unknown)
    } else {
        None
    }
}

impl UnitEnablementState {
    /// The label systemd uses for this value.
    pub fn as_str(self) -> (r: &'static str)
        ensures
            r@ == enablement_state_label(self),
    {
        match self {
            UnitEnablementState::Enabled => "enabled",
            UnitEnablementState::EnabledRuntime => "enabled-runtime",
            UnitEnablementState::Linked => "linked",
            UnitEnablementState::LinkedRuntime => "linked-runtime",
            UnitEnablementState::Masked => "masked",
            UnitEnablementState::MaskedRuntime => "masked-runtime",
            UnitEnablementState::Static => "static",
            UnitEnablementState::Disabled => "disabled",
            UnitEnablementState::DisabledRuntime => "disabled-runtime",
            UnitEnablementState::Invalid => "invalid",
            UnitEnablementState::Indirect => "indirect",
            UnitEnablementState::Alias => "alias",
            UnitEnablementState::Generated => "generated",
            UnitEnablementState::Transient => "transient",
            UnitEnablementState::Unknown => "unknown",
        }
    }


    /// The colour this value is shown in.
    pub fn color(self) -> (r: Color)
        ensures
            r == enablement_state_color(self),
    {
        match self {
            UnitEnablementState::Enabled => Color::Green,
            UnitEnablementState::EnabledRuntime => Color::Green,
            UnitEnablementState::Linked => Color::Cyan,
            UnitEnablementState::LinkedRuntime => Color::Cyan,
            UnitEnablementState::Masked => Color::Red,
            UnitEnablementState::MaskedRuntime => Color::Red,
            UnitEnablementState::Static => Color::Cyan,
            UnitEnablementState::Disabled => Color::DarkGray,
            UnitEnablementState::DisabledRuntime => Color::DarkGray,
            UnitEnablementState::Invalid => Color::Red,
            UnitEnablementState::Indirect => Color::Cyan,
            UnitEnablementState::Alias => Color::Cyan,
            UnitEnablementState::Generated => Color::Cyan,
            UnitEnablementState::Transient => Color::Yellow,
            UnitEnablementState::Unknown => Color::Yellow,
        }
    }
}

/// The variant whose label is exactly `value`.
pub fn parse_enablement_state_label(value: &str) -> (r: Option<UnitEnablementState>)
    ensures
        r == parse_enablement_state(value@),
{
    if str_eq(value, "enabled") {
        Some(UnitEnablementState::Enabled)
    } else if str_eq(value, "enabled-runtime") {
        Some(UnitEnablementState::EnabledRuntime)
    } else if str_eq(value, "linked") {
        Some(UnitEnablementState::Linked)
    } else if str_eq(value, "linked-runtime") {
        Some(UnitEnablementState::LinkedRuntime)
    } else if str_eq(value, "masked") {
        Some(UnitEnablementState::Masked)
    } else if str_eq(value, "masked-runtime") {
        Some(UnitEnablementState::MaskedRuntime)
    } else if str_eq(value, "static") {
        Some(UnitEnablementState::Static)
    } else if str_eq(value, "disabled") {
        Some(UnitEnablementState::Disabled)
    } else if str_eq(value, "disabled-runtime") {
        Some(UnitEnablementState::DisabledRuntime)
    } else if str_eq(value, "invalid") {
        Some(UnitEnablementState::Invalid)
    } else if str_eq(value, "indirect") {
        Some(UnitEnablementState::Indirect)
    } else if str_eq(value, "alias") {
        Some(UnitEnablementState::Alias)
    } else if str_eq(value, "generated") {
        Some(UnitEnablementState::Generated)
    } else if str_eq(value, "transient") {
        Some(UnitEnablementState::Transient)
    } else if str_eq(value, "unknown") {
        Some(UnitEnablementState::Unknown)
    } else {
        None
    }
}

impl core::str::FromStr for UnitEnablementState {
    type Err = ParseLabelError;

    fn from_str(s: &str) -> (r: Result<UnitEnablementState, ParseLabelError>)
        ensures
            match parse_enablement_state(s@) {
                Some(x) => r matches Ok(y) && y == x,
                None => r is Err,
            },
    {
        match parse_enablement_state_label(s) {
            Some(x) => Ok(x),
            None => Err(ParseLabelError),
        }
    }
}

impl Default for UnitEnablementState {
    fn default() -> (r: UnitEnablementState)
        ensures
            r == UnitEnablementState::Enabled,
    {
        UnitEnablementState::Enabled
    }
}

} // verus!
