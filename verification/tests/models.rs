use lazysysd::models::{
    parse_active_state_label, parse_enablement_state_label, parse_load_state_label, parse_scope_label, Color,
    UnitActiveState, UnitEditMode, UnitEnablementState, UnitLoadState, UnitScope, UnitType,
};

#[test]
fn unit_type_round_trips_known_values_and_falls_back_to_unknown() {
    let cases = [
        (UnitType::Unknown, "unknown"),
        (UnitType::Service, "service"),
        (UnitType::Socket, "socket"),
        (UnitType::Target, "target"),
        (UnitType::Device, "device"),
        (UnitType::Mount, "mount"),
        (UnitType::Automount, "automount"),
        (UnitType::Timer, "timer"),
        (UnitType::Path, "path"),
        (UnitType::Slice, "slice"),
        (UnitType::Scope, "scope"),
        (UnitType::Swap, "swap"),
    ];

    for (unit_type, label) in cases {
        assert_eq!(unit_type.as_str(), label);
        assert_eq!(UnitType::from_str(label), unit_type);
        assert_eq!(label.parse::<UnitType>().unwrap(), unit_type);
    }

    assert_eq!(UnitType::from_str("weird"), UnitType::Unknown);
    assert_eq!(UnitType::from_unit_name("ssh"), UnitType::Unknown);
    assert_eq!(UnitType::from_unit_name("ssh.weird"), UnitType::Unknown);
    assert_eq!(UnitType::from_unit_name("foo.bar.service"), UnitType::Service);
}

#[test]
fn state_labels_include_unknown_fallbacks() {
    assert_eq!(UnitLoadState::Unknown.as_str(), "unknown");
    assert_eq!(UnitLoadState::Unknown.color(), Color::White);
    assert_eq!(UnitActiveState::Unknown.as_str(), "unknown");
    assert_eq!(UnitActiveState::Unknown.color(), Color::White);
    assert_eq!(UnitEnablementState::Unknown.as_str(), "unknown");
    assert_eq!(UnitEnablementState::Unknown.color(), Color::Yellow);
}

#[test]
fn unknown_type_label_does_not_parse() {
    assert!("weird".parse::<UnitType>().is_err());
    assert!("".parse::<UnitType>().is_err());
}

#[test]
fn state_labels_read_back() {
    assert_eq!(parse_scope_label("session"), Some(UnitScope::Session));
    assert_eq!(parse_scope_label(UnitScope::Global.as_str()), Some(UnitScope::Global));
    assert_eq!(parse_scope_label("user"), None);
    assert_eq!(parse_load_state_label("not-found"), Some(UnitLoadState::NotFound));
    assert_eq!(parse_active_state_label("deactivating"), Some(UnitActiveState::Deactivating));
    assert_eq!(parse_enablement_state_label("linked-runtime"), Some(UnitEnablementState::LinkedRuntime));
    assert_eq!(parse_enablement_state_label("Enabled"), None);
    assert_eq!(UnitEnablementState::MaskedRuntime.as_str(), "masked-runtime");
    assert_eq!(UnitActiveState::Maintenance.color(), Color::Magenta);
    assert_eq!(UnitLoadState::BadSetting.color(), Color::Red);
    assert_eq!(UnitScope::Session.color(), Color::Cyan);
}

#[test]
fn edit_mode_labels() {
    assert_eq!(UnitEditMode::Override.action_label(), "override");
    assert_eq!(UnitEditMode::Full.action_label(), "full replacement");
    assert_eq!(UnitEditMode::Override.draft_label("ssh.service"), "Draft Override: ssh.service");
    assert_eq!(UnitEditMode::Full.draft_label("a.socket"), "Draft Replacement: a.socket");
}
