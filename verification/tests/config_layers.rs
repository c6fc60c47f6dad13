use quickdiff::config::{
    global_config_path, repo_config_path, load_preferences, ConfigOverrides, QuickdiffConfig, ViewPreferences,
};

#[test]
fn merge_precedence_is_defaults_then_global_then_repo_then_cli() {
    let mut prefs = ViewPreferences::default();
    QuickdiffConfig { theme: Some("dracula".to_string()), layout: None, wrap_lines: Some(true), line_numbers: None }
        .merge_into(&mut prefs);
    QuickdiffConfig { theme: Some("nord".to_string()), layout: None, wrap_lines: None, line_numbers: Some(false) }
        .merge_into(&mut prefs);
    if let Some(theme) = Some("gruvbox".to_string()) {
        prefs.theme = theme;
    }

    assert_eq!(prefs.theme, "gruvbox");
    assert!(prefs.wrap_lines);
    assert!(!prefs.line_numbers);
}

#[test]
fn defaults_are_default_theme_no_wrap_with_numbers() {
    let p = ViewPreferences::default();
    assert_eq!(p.theme, "default");
    assert!(!p.wrap_lines);
    assert!(p.line_numbers);
}

#[test]
fn resolve_preferences_layers_in_order() {
    let global = QuickdiffConfig { theme: Some("dracula".to_string()), layout: None, wrap_lines: Some(true), line_numbers: None };
    let repo = QuickdiffConfig { theme: Some("nord".to_string()), layout: None, wrap_lines: None, line_numbers: Some(false) };
    let loaded = load_preferences(Some(&global), Some(&repo), &ConfigOverrides::default(), vec!["w".to_string()]);
    assert_eq!(loaded.prefs.theme, "nord");
    assert!(loaded.prefs.wrap_lines);
    assert!(!loaded.prefs.line_numbers);
    assert_eq!(loaded.warnings, vec!["w".to_string()]);

    let cli = ConfigOverrides { theme: Some("gruvbox".to_string()) };
    let loaded = load_preferences(Some(&global), Some(&repo), &cli, Vec::new());
    assert_eq!(loaded.prefs.theme, "gruvbox");

    let none = load_preferences(None, None, &ConfigOverrides::default(), Vec::new());
    assert_eq!(none.prefs, ViewPreferences::default());
}

#[test]
fn merging_same_layer_twice_is_idempotent() {
    let layer = QuickdiffConfig { theme: Some("x".to_string()), layout: None, wrap_lines: Some(true), line_numbers: Some(false) };
    let mut once = ViewPreferences::default();
    layer.merge_into(&mut once);
    let mut twice = ViewPreferences::default();
    layer.merge_into(&mut twice);
    layer.merge_into(&mut twice);
    assert_eq!(once, twice);
}

#[test]
fn config_paths_join_components() {
    assert_eq!(global_config_path("/home/u/.config/quickdiff"), "/home/u/.config/quickdiff/config.toml");
    assert_eq!(repo_config_path("/repo"), "/repo/.quickdiff/config.toml");
}
