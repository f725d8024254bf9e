use wiky::browse::{after_pick, browse_step, give_up_message, options_step, BrowseStep, Landing, OptionsStep};
use wiky::client::{Article, DisambigOption};
use wiky::client::disambiguation_signs;
use wiky::commands::{
    apply_config_set, apply_theme_field, bool_from_lowered, filter_lowered_sections, filter_section,
    parse_bool, parse_choice,
};
use wiky::config::api_url_for;
use wiky::config::Config;
use wiky::theme::Theme;
use wiky::WikiError;

fn other_message(r: Result<(), WikiError>) -> String {
    match r {
        Err(WikiError::Other(m)) => m,
        other => panic!("unexpected {:?}", other),
    }
}

fn page(title: &str, content: &str) -> Article {
    Article {
        title: title.into(),
        content: content.into(),
        url: String::new(),
        lang: "en".into(),
        pageid: 0,
        categories: vec![],
        summary: String::new(),
    }
}

#[test]
fn booleans_in_any_case() {
    for w in ["true", "1", "yes", "on", "TRUE", "Yes", "oN"] {
        assert_eq!(parse_bool(w).unwrap(), true, "{w}");
    }
    for w in ["false", "0", "no", "off", "FALSE", "No", "OFF"] {
        assert_eq!(parse_bool(w).unwrap(), false, "{w}");
    }
    match parse_bool("maybe") {
        Err(WikiError::Other(m)) => assert_eq!(m, "'maybe' is not a boolean (use true/false)"),
        other => panic!("unexpected {:?}", other),
    }
    assert!(parse_bool(" true").is_err());
}

#[test]
fn config_set_plain_keys() {
    let mut c = Config::default();
    apply_config_set(&mut c, "lang", "de").unwrap();
    assert_eq!(c.language, "de");
    apply_config_set(&mut c, "language", "fr").unwrap();
    assert_eq!(c.language, "fr");
    apply_config_set(&mut c, "theme", "dracula").unwrap();
    assert_eq!(c.theme, "dracula");
    apply_config_set(&mut c, "pager", "yes").unwrap();
    assert!(c.pager);
    apply_config_set(&mut c, "open_urls", "on").unwrap();
    assert!(c.open_urls);
    apply_config_set(&mut c, "show_image_alt", "1").unwrap();
    assert!(c.show_image_alt);
    apply_config_set(&mut c, "width", "+120").unwrap();
    assert_eq!(c.width, 120);
    apply_config_set(&mut c, "results_count", "255").unwrap();
    assert_eq!(c.results_count, 255);
}

#[test]
fn config_set_errors_leave_config_unchanged() {
    let mut c = Config::default();
    assert_eq!(other_message(apply_config_set(&mut c, "width", "65536")), "'65536' is not a valid width");
    assert_eq!(other_message(apply_config_set(&mut c, "width", "-1")), "'-1' is not a valid width");
    assert_eq!(other_message(apply_config_set(&mut c, "results_count", "256")), "'256' is not a valid count");
    assert_eq!(other_message(apply_config_set(&mut c, "pager", "sure")), "'sure' is not a boolean (use true/false)");
    assert_eq!(other_message(apply_config_set(&mut c, "colour", "red")), "Unknown config key: 'colour'");
    assert_eq!(
        other_message(apply_config_set(&mut c, "custom_theme.shadow", "#000000")),
        "Unknown theme field: 'shadow'"
    );
    match apply_config_set(&mut c, "custom_theme.title", "#12") {
        Err(WikiError::InvalidColor(m)) => assert_eq!(m, "#12"),
        other => panic!("unexpected {:?}", other),
    }
    assert_eq!(c.width, 0);
    assert_eq!(c.results_count, 10);
    assert!(!c.pager);
    assert_eq!(c.custom_theme.title, Theme::dark().title);
}

#[test]
fn config_width_round_trip() {
    let mut c = Config::default();
    for w in [0u16, 7, 80, 65535] {
        apply_config_set(&mut c, "width", &w.to_string()).unwrap();
        assert_eq!(c.width, w);
    }
    for n in [0u8, 5, 255] {
        apply_config_set(&mut c, "results_count", &n.to_string()).unwrap();
        assert_eq!(c.results_count, n);
    }
}

#[test]
fn custom_color_reaches_active_theme() {
    let mut c = Config::default();
    c.theme = "custom".into();
    apply_config_set(&mut c, "custom_theme.link", "#123456").unwrap();
    apply_config_set(&mut c, "custom_theme.custom_theme.dim", "#abc").unwrap();
    let t = c.active_theme();
    assert_eq!(t.link, "#123456");
    assert_eq!(t.dim, "#abc");
    assert_eq!(t.title, Theme::dark().title);
}

#[test]
fn theme_field_checks_color_before_name() {
    let mut t = Theme::dark();
    match apply_theme_field(&mut t, "nonsense", "xyz") {
        Err(WikiError::InvalidColor(m)) => assert_eq!(m, "#xyz"),
        other => panic!("unexpected {:?}", other),
    }
    assert_eq!(other_message(apply_theme_field(&mut t, "nonsense", "#fff")), "Unknown theme field: 'nonsense'");
    apply_theme_field(&mut t, "result_index", "#fff").unwrap();
    assert_eq!(t.result_index, "#fff");
    apply_theme_field(&mut t, "separator", "010203").unwrap();
    assert_eq!(t.separator, "010203");
}

#[test]
fn section_filter_keeps_matching_sections() {
    let content = "Intro\n## History\nOld times\n### Early history\nVery old\n## Economy\nMoney\n## Later History\nNew";
    assert_eq!(
        filter_section(content, "HISTORY"),
        "## History\nOld times\n### Early history\nVery old\n## Later History\nNew\n"
    );
    assert_eq!(filter_section(content, "economy"), "## Economy\nMoney\n");
    assert_eq!(filter_section(content, "sport"), content);
    assert_eq!(filter_section("", "x"), "");
}

#[test]
fn menu_choices() {
    assert_eq!(parse_choice("2\n", 3), Some(1));
    assert_eq!(parse_choice("  1  ", 3), Some(0));
    assert_eq!(parse_choice("0", 3), None);
    assert_eq!(parse_choice("4", 3), None);
    assert_eq!(parse_choice("two", 3), None);
    assert_eq!(parse_choice("", 3), None);
    assert_eq!(parse_choice("+3", 3), Some(2));
}

#[test]
fn browse_steps() {
    let plain = page("Rust", "Rust is a language.");
    let dis = page("Mercury", "Mercury may refer to:\n* planet");
    assert_eq!(browse_step(&plain, 0), BrowseStep::Render);
    assert_eq!(browse_step(&dis, 0), BrowseStep::Disambiguate);
    assert_eq!(browse_step(&dis, 9), BrowseStep::Disambiguate);
    assert_eq!(browse_step(&dis, 10), BrowseStep::GiveUp);
    assert_eq!(browse_step(&plain, 10), BrowseStep::GiveUp);
}

#[test]
fn following_a_picked_option() {
    let current = page("Mercury", "Mercury may refer to:");
    let opt = DisambigOption {
        label: "Mercury (planet), the first planet".into(),
        title: "Mercury (planet)".into(),
        description: "the first planet".into(),
    };
    match after_pick(&current, &opt, Ok(page("Mercury (planet)", "A planet."))) {
        Landing::Next(a) => assert_eq!(a.title, "Mercury (planet)"),
        _ => panic!("expected the next article"),
    }
    match after_pick(&current, &opt, Ok(page("Mercury", "again"))) {
        Landing::Tip(m) => assert_eq!(m, "Tip: try `wiky search \"the first planet\"`  to find the exact article."),
        _ => panic!("expected a tip"),
    }
    match after_pick(&current, &opt, Err(WikiError::NotFound("Mercury (planet)".into()))) {
        Landing::Missing(m) => assert_eq!(
            m,
            "Could not find an article for \"Mercury (planet)\". Try: wiky search \"Mercury\", the first planet\","
        ),
        _ => panic!("expected an error message"),
    }
}

#[test]
fn error_messages() {
    assert_eq!(WikiError::Api("x".into()).message(), "API error: x");
    assert_eq!(WikiError::Network("down".into()).message(), "network error: down");
    assert_eq!(WikiError::Parse("eof".into()).message(), "parse error: eof");
    assert_eq!(WikiError::Config("bad".into()).message(), "config error: bad");
    assert_eq!(WikiError::Io("denied".into()).message(), "io error: denied");
    assert_eq!(WikiError::Other("plain".into()).message(), "plain");
    assert_eq!(WikiError::InvalidColor("#1".into()).message(), "invalid color '#1': expected #RRGGBB or #RGB");
}

#[test]
fn lowered_forms_decide() {
    assert_eq!(bool_from_lowered("YES", "yes").unwrap(), true);
    match bool_from_lowered("Nah", "nah") {
        Err(WikiError::Other(m)) => assert_eq!(m, "'Nah' is not a boolean (use true/false)"),
        other => panic!("unexpected {:?}", other),
    }
    assert_eq!(api_url_for("pt"), "https://pt.wikipedia.org/w/api.php");
    assert!(disambiguation_signs("Mercury", "", "mercury", &vec!["x disambiguation y".to_string()]));
    assert!(disambiguation_signs("M (Disambiguation)", "", "m (disambiguation)", &vec![]));
    assert!(!disambiguation_signs("Mercury", "A planet.", "mercury", &vec!["planets".to_string()]));
    let content = "Intro\n# One\na\n# Two\nb";
    let lows = vec!["intro".to_string(), "# one".to_string(), "a".to_string(), "# two".to_string(), "b".to_string()];
    assert_eq!(filter_lowered_sections(content, &lows, "two"), "# Two\nb\n");
    assert_eq!(filter_lowered_sections(content, &vec![], "two"), content);
}

#[test]
fn theme_setting_selects_builtin_theme() {
    let mut c = Config::default();
    apply_config_set(&mut c, "theme", "NoRd").unwrap();
    assert_eq!(c.theme, "NoRd");
    assert_eq!(c.active_theme().title, Theme::nord().title);
    apply_config_set(&mut c, "theme", "dracula").unwrap();
    assert_eq!(c.active_theme().body, Theme::dracula().body);
}

#[test]
fn options_after_fetching_them() {
    let current = page("Mercury", "Mercury may refer to:\nMercury (planet), a planet");
    let fetched = vec![DisambigOption { label: "x".into(), title: "X".into(), description: String::new() }];
    match options_step(&current, Ok(fetched)) {
        OptionsStep::Choose(o) => assert_eq!(o[0].title, "X"),
        OptionsStep::Render => panic!("expected a menu"),
    }
    match options_step(&current, Err(WikiError::Network("down".into()))) {
        OptionsStep::Choose(o) => {
            assert_eq!(o.len(), 1);
            assert_eq!(o[0].title, "Mercury (planet)");
        }
        OptionsStep::Render => panic!("expected the plain-text options"),
    }
    assert!(matches!(options_step(&current, Ok(vec![])), OptionsStep::Render));
    let empty = page("Mercury", "Mercury may refer to:");
    assert!(matches!(options_step(&empty, Err(WikiError::Other("x".into()))), OptionsStep::Render));
}

#[test]
fn give_up_text() {
    assert_eq!(give_up_message(), "Too many disambiguation levels — giving up.");
}
