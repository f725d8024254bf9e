use wiky::config::{terminal_width_from, Config};
use wiky::theme::Theme;

#[test]
fn default_config_is_valid() {
    let c = Config::default();
    assert_eq!(c.language, "en");
    assert_eq!(c.results_count, 10);
}

#[test]
fn api_url_uses_language() {
    let mut c = Config::default();
    c.language = "id".into();
    assert_eq!(c.api_url(), "https://id.wikipedia.org/w/api.php");
}

#[test]
fn active_theme_builtin() {
    let mut c = Config::default();
    c.theme = "nord".into();
    let t = c.active_theme();
    assert_eq!(t.title, "#88C0D0");
}

#[test]
fn active_theme_custom() {
    let mut c = Config::default();
    c.theme = "custom".into();
    c.custom_theme.title = "#AABBCC".into();
    assert_eq!(c.active_theme().title, "#AABBCC");
}

#[test]
fn config_default_lang_is_en() {
    let c = Config::default();
    assert_eq!(c.language, "en");
}

#[test]
fn config_api_url_format() {
    let mut c = Config::default();
    c.language = "fr".into();
    assert!(c.api_url().starts_with("https://fr.wikipedia.org"));
}

#[test]
fn config_active_theme_dark() {
    let mut c = Config::default();
    c.theme = "dark".into();
    let t = c.active_theme();
    assert_eq!(t.title, "#61AFEF");
}

#[test]
fn config_active_theme_custom() {
    let mut c = Config::default();
    c.theme = "custom".into();
    c.custom_theme.title = "#FF0000".into();
    let t = c.active_theme();
    assert_eq!(t.title, "#FF0000");
}

#[test]
fn default_config_settings() {
    let c = Config::default();
    assert_eq!(c.theme, "dark");
    assert_eq!(c.width, 0);
    assert!(!c.pager);
    assert!(!c.open_urls);
    assert!(!c.show_image_alt);
    assert_eq!(c.max_article_bytes, 0);
    assert_eq!(c.custom_theme.title, Theme::dark().title);
}

#[test]
fn active_theme_custom_is_exact_and_builtin_names_ignore_case() {
    let mut c = Config::default();
    c.custom_theme.dim = "#010203".into();
    c.theme = "custom".into();
    assert_eq!(c.active_theme().dim, "#010203");
    c.theme = "CUSTOM".into();
    assert_eq!(c.active_theme().dim, Theme::dark().dim);
    c.theme = "Solarized".into();
    assert_eq!(c.active_theme().title, Theme::solarized().title);
    c.theme = "no-such-theme".into();
    assert_eq!(c.active_theme().title, Theme::dark().title);
}

#[test]
fn api_url_lowercases_language() {
    let mut c = Config::default();
    c.language = "DE".into();
    assert_eq!(c.api_url(), "https://de.wikipedia.org/w/api.php");
}

#[test]
fn effective_width_prefers_configured_width() {
    let mut c = Config::default();
    assert_eq!(c.effective_width(132), 132);
    c.width = 60;
    assert_eq!(c.effective_width(132), 60);
}

#[test]
fn terminal_width_sources_in_order() {
    assert_eq!(terminal_width_from(Some("120"), Some(90)), 120);
    assert_eq!(terminal_width_from(Some("0"), Some(90)), 90);
    assert_eq!(terminal_width_from(Some("wide"), Some(90)), 90);
    assert_eq!(terminal_width_from(Some("70000"), None), 80);
    assert_eq!(terminal_width_from(None, Some(0)), 80);
    assert_eq!(terminal_width_from(None, None), 80);
}

#[test]
fn cli_overrides_replace_given_settings() {
    let mut c = Config::default();
    c.apply_overrides(Some("ja"), None, Some(100), true);
    assert_eq!(c.language, "ja");
    assert_eq!(c.theme, "dark");
    assert_eq!(c.width, 100);
    assert!(c.pager);
    c.apply_overrides(None, Some("nord"), None, false);
    assert_eq!(c.theme, "nord");
    assert_eq!(c.width, 100);
    assert!(c.pager);
}
