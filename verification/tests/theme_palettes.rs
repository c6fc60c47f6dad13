use quickdiff::highlight::StyleId;
use quickdiff::theme::{boost_muted_fg, is_muted_color, style_to_color};
use quickdiff::theme::{parse_hex, resolve_color, resolve_theme, Color, Theme, ThemeColorsJson, ThemeJson};

fn no_colors() -> ThemeColorsJson {
    ThemeColorsJson {
        bg_dark: None,
        bg_surface: None,
        bg_elevated: None,
        bg_selected: None,
        border_dim: None,
        border_active: None,
        gutter_sep: None,
        pane_divider: None,
        text_faint: None,
        text_muted: None,
        text_dim: None,
        text_normal: None,
        text_bright: None,
        accent: None,
        accent_dim: None,
        diff_delete_bg: None,
        diff_insert_bg: None,
        diff_empty_bg: None,
        inline_delete_bg: None,
        inline_insert_bg: None,
        success: None,
        error: None,
        warning: None,
        syn_keyword: None,
        syn_type: None,
        syn_function: None,
        syn_string: None,
        syn_number: None,
        syn_comment: None,
        syn_operator: None,
        syn_punctuation: None,
        syn_constant: None,
        syn_property: None,
        syn_attribute: None,
    }
}

#[test]
fn parse_hex_accepts_six_digits() {
    assert_eq!(parse_hex("#ff8000"), Some(Color::Rgb(255, 128, 0)));
    assert_eq!(parse_hex("ff8000"), Some(Color::Rgb(255, 128, 0)));
    assert_eq!(parse_hex("##0a0B0c"), Some(Color::Rgb(10, 11, 12)));
    assert_eq!(parse_hex("+f+f+f"), Some(Color::Rgb(15, 15, 15)));
}

#[test]
fn parse_hex_rejects_malformed() {
    assert_eq!(parse_hex("#fff"), None);
    assert_eq!(parse_hex("#gg0000"), None);
    assert_eq!(parse_hex("-f0000"), None);
    assert_eq!(parse_hex(""), None);
    assert_eq!(parse_hex("#ff80001"), None);
}

#[test]
fn resolve_color_by_hex_or_definition() {
    let defs = vec![("red".to_string(), "#ff0000".to_string()), ("bad".to_string(), "nope".to_string())];
    let fallback = Color::Rgb(1, 2, 3);
    assert_eq!(resolve_color("#00ff00", &defs, fallback), Color::Rgb(0, 255, 0));
    assert_eq!(resolve_color("red", &defs, fallback), Color::Rgb(255, 0, 0));
    assert_eq!(resolve_color("bad", &defs, fallback), fallback);
    assert_eq!(resolve_color("missing", &defs, fallback), fallback);
    assert_eq!(resolve_color("#zz", &defs, fallback), fallback);
}

#[test]
fn resolve_theme_falls_back_to_default() {
    let mut colors = no_colors();
    colors.accent = Some("brand".to_string());
    colors.error = Some("#010203".to_string());
    colors.warning = Some("#bad".to_string());
    let json = ThemeJson { defs: vec![("brand".to_string(), "#102030".to_string())], theme: colors };
    let t = resolve_theme(&json);
    let d = Theme::builtin_default();
    assert_eq!(t.accent, Color::Rgb(16, 32, 48));
    assert_eq!(t.error, Color::Rgb(1, 2, 3));
    assert_eq!(t.warning, d.warning);
    assert_eq!(t.bg_dark, d.bg_dark);

    let empty = ThemeJson { defs: Vec::new(), theme: no_colors() };
    assert_eq!(resolve_theme(&empty), d);
}

#[test]
fn builtin_themes_by_name() {
    assert_eq!(Theme::builtin("dracula"), Theme::dracula());
    assert_eq!(Theme::builtin("one-dark"), Theme::onedark());
    assert_eq!(Theme::builtin("onedark"), Theme::onedark());
    assert_eq!(Theme::builtin("unknown"), Theme::builtin_default());
    assert_eq!(Theme::dracula().bg_dark, Color::Rgb(40, 42, 54));
    assert_eq!(Theme::builtin_default().accent, Color::Rgb(80, 200, 200));
}

#[test]
fn load_prefers_user_theme() {
    let user = Theme::nord();
    assert_eq!(Theme::load("dracula", Some(user)), Theme::nord());
    assert_eq!(Theme::load("dracula", None), Theme::dracula());
}

#[test]
fn list_is_sorted_and_deduplicated() {
    let names = Theme::list(&vec!["zen".to_string(), "nord".to_string(), "alpha".to_string(), "zen".to_string()]);
    assert_eq!(
        names,
        vec![
            "alpha", "ayu", "catppuccin", "default", "dracula", "everforest", "github", "gruvbox", "kanagawa",
            "monokai", "nightowl", "nord", "onedark", "palenight", "rosepine", "solarized", "tokyonight", "zen",
            "zenburn"
        ]
    );
    assert_eq!(
        Theme::list(&Vec::new()),
        vec![
            "ayu", "catppuccin", "default", "dracula", "everforest", "github", "gruvbox", "kanagawa", "monokai",
            "nightowl", "nord", "onedark", "palenight", "rosepine", "solarized", "tokyonight", "zenburn"
        ]
    );
}

#[test]
fn syntax_styles_map_to_theme_colors() {
    let t = Theme::builtin("default");
    assert_eq!(style_to_color(StyleId::Keyword, &t), t.syn_keyword);
    assert_eq!(style_to_color(StyleId::Variable, &t), t.text_normal);
    assert!(is_muted_color(Color::Rgb(40, 40, 40)));
    assert!(!is_muted_color(Color::Rgb(255, 200, 0)));
    assert_eq!(boost_muted_fg(Color::Rgb(40, 40, 40), Color::Rgb(250, 250, 250)), Color::Rgb(250, 250, 250));
    assert_eq!(boost_muted_fg(Color::Rgb(255, 200, 0), Color::Rgb(250, 250, 250)), Color::Rgb(255, 200, 0));
}

#[test]
fn readme_themes_load_by_name() {
    assert_eq!(Theme::builtin("ayu"), Theme::ayu());
    assert_eq!(Theme::builtin("zenburn"), Theme::zenburn());
    assert_eq!(Theme::load("monokai", None), Theme::monokai());
    assert_ne!(Theme::kanagawa(), Theme::builtin_default());
}
