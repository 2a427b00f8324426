use lazysysd::models::UnitInfo;
use lazysysd::state::{App, FilterMenu};

fn test_app(units: Vec<UnitInfo>) -> App {
    let mut app = App::blank();
    app.units = units;
    app.is_loading = false;
    app.update_filter();
    app
}

fn unit(name: &str, description: &str, load_state: &str, active_state: &str, enablement_state: &str, path: &str) -> UnitInfo {
    UnitInfo {
        name: name.to_string(),
        description: description.to_string(),
        scope: "global".to_string(),
        load_state: load_state.to_string(),
        active_state: active_state.to_string(),
        enablement_state: enablement_state.to_string(),
        sub_state: active_state.to_string(),
        path: path.to_string(),
    }
}

fn filtered_names(app: &App) -> Vec<&str> {
    app.filtered_units.iter().map(|&index| app.units[index].name.as_str()).collect()
}

#[test]
fn update_filter_combines_search_and_state_filters() {
    let mut app = test_app(vec![
        unit("ssh.service", "Secure Shell", "loaded", "active", "enabled", "/test/unit/ssh"),
        unit("broken.service", "Broken worker", "loaded", "failed", "static", "/test/unit/broken"),
        unit("db.service", "Database", "loaded", "failed", "disabled", "/test/unit/db"),
    ]);

    app.active_state_filter = Some("failed".to_string());
    app.enablement_state_filter = Some("static".to_string());
    app.search_query = "broken".to_string();
    app.update_filter();

    assert_eq!(filtered_names(&app), vec!["broken.service"]);
}

#[test]
fn filter_menu_options_include_all_and_expected_hotkeys() {
    let app = test_app(vec![
        unit("ssh.service", "Secure Shell", "loaded", "active", "enabled", "/test/unit/ssh"),
        unit("broken.service", "Broken worker", "masked", "inactive", "static", "/test/unit/broken"),
    ]);

    let options = app.filter_menu_options(FilterMenu::Active);

    assert_eq!(options[0].label, "all");
    assert!(options[0].selected);
    assert!(options.iter().any(|option| option.label == "inactive" && option.hotkey == 'i'));
    assert!(options.iter().any(|option| option.label == "active"));
}

#[test]
fn active_and_load_filters_include_documented_states_even_when_absent() {
    let app = test_app(vec![unit("ssh.service", "Secure Shell", "loaded", "active", "enabled", "/test/unit/ssh")]);

    let active_options = app.filter_menu_options(FilterMenu::Active);
    let load_options = app.filter_menu_options(FilterMenu::Load);

    assert!(active_options.iter().any(|option| option.label == "failed"));
    assert!(active_options.iter().any(|option| option.label == "reloading"));
    assert!(load_options.iter().any(|option| option.label == "not-found"));
    assert!(load_options.iter().any(|option| option.label == "bad-setting"));
}

#[test]
fn no_query_sorts_by_name_and_filters_by_state() {
    let mut app = test_app(vec![
        unit("b.service", "B", "loaded", "failed", "enabled", "/b"),
        unit("a.service", "A", "loaded", "active", "enabled", "/a"),
        unit("c.service", "C", "loaded", "failed", "enabled", "/c"),
    ]);
    assert_eq!(filtered_names(&app), vec!["a.service", "b.service", "c.service"]);
    app.active_state_filter = Some("failed".to_string());
    app.update_filter();
    assert_eq!(filtered_names(&app), vec!["b.service", "c.service"]);
    assert_eq!(app.filter_summary(FilterMenu::Active), "failed");
    assert_eq!(app.filter_summary(FilterMenu::Load), "all");
}

#[test]
fn selection_follows_the_unit_across_refilters() {
    let mut app = test_app(vec![
        unit("a.service", "A", "loaded", "active", "enabled", "/a"),
        unit("b.service", "B", "loaded", "failed", "enabled", "/b"),
    ]);
    app.select_filtered_unit_index(Some(1));
    app.active_state_filter = Some("failed".to_string());
    app.update_filter();
    assert_eq!(app.get_selected_unit().map(|u| u.name.as_str()), Some("b.service"));
    assert_eq!(app.list_selected, Some(0));
}

#[test]
fn search_ranks_better_matches_first() {
    let mut app = test_app(vec![
        unit("network-online.target", "Network is Online", "loaded", "active", "static", "/n"),
        unit("sshd.service", "OpenSSH Daemon", "loaded", "active", "enabled", "/s"),
    ]);
    app.search_query = "sshd".to_string();
    app.update_filter();
    assert_eq!(filtered_names(&app), vec!["sshd.service"]);
    assert!(app.search_score(&app.units[1]).is_some());
    assert!(app.search_score(&app.units[0]).is_none());
}

#[test]
fn no_query_sort_ignores_case() {
    let app = test_app(vec![
        unit("Zeta.service", "Z", "loaded", "active", "enabled", "/z"),
        unit("alpha.service", "a", "loaded", "active", "enabled", "/a"),
        unit("Beta.service", "B", "loaded", "active", "enabled", "/b"),
        unit("beta.service", "b", "loaded", "active", "enabled", "/b2"),
    ]);
    assert_eq!(filtered_names(&app), vec!["alpha.service", "Beta.service", "beta.service", "Zeta.service"]);
}
