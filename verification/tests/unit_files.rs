use lazysysd::models::UnitAction;
use lazysysd::unit_files::{
    build_unit_file_state_map, cache_enablement_state, cached_enablement_state, clear_enablement_state_cache,
    complete_unit_action, enablement_state_cache, fragment_path_usable, find_cached_unit_file_state, resolve_enablement_state_cached,
    split_resolved_units, store_fetched_enablement_state, template_unit_name, unit_has_file, UnitRow,
};

fn files() -> Vec<(String, String)> {
    vec![
        ("/usr/lib/systemd/system/ssh.service".to_string(), "enabled".to_string()),
        ("/usr/lib/systemd/system/getty@.service".to_string(), "static".to_string()),
        ("/".to_string(), "masked".to_string()),
        ("/etc/systemd/system/ssh.service".to_string(), "disabled".to_string()),
    ]
}

fn row(name: &str) -> UnitRow {
    UnitRow {
        name: name.to_string(),
        description: format!("{name} unit"),
        load_state: "loaded".to_string(),
        active_state: "active".to_string(),
        sub_state: "running".to_string(),
        path: format!("/org/freedesktop/systemd1/unit/{}", name.replace('.', "_2e")),
    }
}

#[test]
fn unit_file_states_are_keyed_by_file_name() {
    let states = build_unit_file_state_map(files());
    assert_eq!(states.entries.len(), 3);
    assert_eq!(states.get("ssh.service").as_deref(), Some("disabled"));
    assert_eq!(states.get("getty@.service").as_deref(), Some("static"));
    assert_eq!(states.get("/usr/lib/systemd/system/ssh.service"), None);
}

#[test]
fn template_names_of_instances() {
    assert_eq!(template_unit_name("getty@tty1.service").as_deref(), Some("getty@.service"));
    assert_eq!(template_unit_name("a@b@c.d.socket").as_deref(), Some("a@.socket"));
    assert_eq!(template_unit_name("ssh.service"), None);
    assert_eq!(template_unit_name("noext"), None);
}

#[test]
fn instances_take_their_template_state() {
    let states = build_unit_file_state_map(files());
    assert_eq!(find_cached_unit_file_state("getty@tty1.service", &states).as_deref(), Some("static"));
    assert_eq!(find_cached_unit_file_state("other.service", &states), None);
}

#[test]
fn kinds_with_unit_files() {
    assert!(unit_has_file("ssh.service"));
    assert!(unit_has_file("home.automount"));
    assert!(unit_has_file("swapfile.swap"));
    assert!(!unit_has_file("sys-devices.device"));
    assert!(!unit_has_file("user.slice"));
}

#[test]
fn resolution_uses_listing_then_kind_then_cache() {
    let states = build_unit_file_state_map(files());
    let mut cache = enablement_state_cache();
    assert_eq!(resolve_enablement_state_cached(&cache, "global", "ssh.service", &states).as_deref(), Some("disabled"));
    assert_eq!(resolve_enablement_state_cached(&cache, "global", "dev-sda.device", &states).as_deref(), Some("static"));
    assert_eq!(resolve_enablement_state_cached(&cache, "global", "foo.service", &states), None);
    cache_enablement_state(&mut cache, "session", "foo.service", "generated");
    assert_eq!(resolve_enablement_state_cached(&cache, "global", "foo.service", &states), None);
    assert_eq!(resolve_enablement_state_cached(&cache, "session", "foo.service", &states).as_deref(), Some("generated"));
    cache_enablement_state(&mut cache, "session", "foo.service", "enabled");
    assert_eq!(cached_enablement_state(&cache, "session", "foo.service").as_deref(), Some("enabled"));
    clear_enablement_state_cache(&mut cache);
    assert_eq!(cached_enablement_state(&cache, "session", "foo.service"), None);
}

#[test]
fn failed_lookups_become_transient() {
    let mut cache = enablement_state_cache();
    assert_eq!(store_fetched_enablement_state(&mut cache, "global", "x.service", None), "transient");
    assert_eq!(cached_enablement_state(&cache, "global", "x.service").as_deref(), Some("transient"));
    assert_eq!(store_fetched_enablement_state(&mut cache, "global", "y.service", Some("enabled".to_string())), "enabled");
}

#[test]
fn enablement_actions_clear_the_cache_on_success() {
    let mut cache = enablement_state_cache();
    cache_enablement_state(&mut cache, "global", "a.service", "enabled");
    let r = complete_unit_action(&mut cache, UnitAction::Start, Ok(()));
    assert!(r.success);
    assert_eq!(cache.entries.len(), 1);
    let r = complete_unit_action(&mut cache, UnitAction::Disable, Err("denied".to_string()));
    assert!(!r.success);
    assert_eq!(r.error.as_deref(), Some("denied"));
    assert_eq!(cache.entries.len(), 1);
    let r = complete_unit_action(&mut cache, UnitAction::Mask, Ok(()));
    assert!(r.success);
    assert!(r.error.is_none());
    assert!(cache.entries.is_empty());
}

#[test]
fn rows_split_into_resolved_and_pending() {
    let states = build_unit_file_state_map(files());
    let cache = enablement_state_cache();
    let rows = vec![row("ssh.service"), row("foo.service"), row("tmp.mount"), row("dev-sda.device")];
    let (units, pending) = split_resolved_units("global", &rows, &cache, &states);
    let names: Vec<&str> = units.iter().map(|u| u.name.as_str()).collect();
    assert_eq!(names, vec!["ssh.service", "dev-sda.device"]);
    assert_eq!(units[0].enablement_state, "disabled");
    assert_eq!(units[0].scope, "global");
    assert_eq!(units[1].enablement_state, "static");
    assert_eq!(units[0].path, rows[0].path);
    let pending_names: Vec<&str> = pending.iter().map(|r| r.name.as_str()).collect();
    assert_eq!(pending_names, vec!["foo.service", "tmp.mount"]);
}

#[test]
fn masked_units_have_no_file_to_show() {
    assert!(fragment_path_usable("/usr/lib/systemd/system/ssh.service"));
    assert!(!fragment_path_usable("/dev/null"));
    assert!(!fragment_path_usable(""));
}
