use wiky::render::{Piece, Renderer};
use wiky::theme::{colorize_hex, hex_is_ok, hex_to_rgb, Role, Theme};
use wiky::WikiError;

#[test]
fn test_hex_to_rgb_6_digit() {
    assert_eq!(hex_to_rgb("#ff6600").unwrap(), (255, 102, 0));
    assert_eq!(hex_to_rgb("ff6600").unwrap(), (255, 102, 0));
}

#[test]
fn test_hex_to_rgb_3_digit() {
    assert_eq!(hex_to_rgb("#f60").unwrap(), (255, 102, 0));
}

#[test]
fn test_hex_invalid() {
    assert!(hex_to_rgb("#gg0000").is_err());
    assert!(hex_to_rgb("#12345").is_err());
}

#[test]
fn test_theme_by_name() {
    assert!(Theme::by_name("dark").is_some());
    assert!(Theme::by_name("NORD").is_some());
    assert!(Theme::by_name("unknown").is_none());
}

#[test]
fn all_builtin_themes_parse() {
    for name in &["dark", "light", "solarized", "nord", "dracula"] {
        let theme = Theme::by_name(name);
        assert!(theme.is_some(), "Theme '{name}' should exist");
        let theme = theme.unwrap();
        for color in [
            &theme.title,
            &theme.heading,
            &theme.body,
            &theme.link,
            &theme.error,
            &theme.success,
        ] {
            assert!(
                hex_to_rgb(color).is_ok(),
                "Color '{color}' in theme '{name}' should be valid hex"
            );
        }
    }
}

#[test]
fn custom_theme_unknown_name_falls_back() {
    let theme = Theme::by_name("does_not_exist");
    assert!(theme.is_none());
}

#[test]
fn hex_parse_uppercase() {
    assert_eq!(hex_to_rgb("#FFFFFF").unwrap(), (255, 255, 255));
}

#[test]
fn hex_parse_lowercase() {
    assert_eq!(hex_to_rgb("#000000").unwrap(), (0, 0, 0));
}

#[test]
fn hex_parse_shorthand() {
    assert_eq!(hex_to_rgb("#fff").unwrap(), (255, 255, 255));
    assert_eq!(hex_to_rgb("#000").unwrap(), (0, 0, 0));
}

#[test]
fn hex_parse_without_hash() {
    assert_eq!(hex_to_rgb("61AFEF").unwrap(), (97, 175, 239));
}

#[test]
fn hex_parse_invalid() {
    assert!(hex_to_rgb("#ZZZZZZ").is_err());
    assert!(hex_to_rgb("#12345").is_err());
    assert!(hex_to_rgb("").is_err());
}

#[test]
fn hex_invalid_color_message_keeps_digits() {
    match hex_to_rgb("  ##12345 ") {
        Err(WikiError::InvalidColor(m)) => assert_eq!(m, "#12345"),
        other => panic!("unexpected {:?}", other),
    }
    match hex_to_rgb("#gg0000") {
        Err(e) => assert_eq!(e.message(), "invalid color '#gg0000': expected #RRGGBB or #RGB"),
        Ok(c) => panic!("unexpected {:?}", c),
    }
}

#[test]
fn hex_short_form_doubles_each_digit() {
    assert_eq!(hex_to_rgb("#abc").unwrap(), hex_to_rgb("#aabbcc").unwrap());
    assert_eq!(hex_to_rgb("#abc").unwrap(), (0xaa, 0xbb, 0xcc));
}

#[test]
fn hex_leading_hashes_are_optional() {
    assert_eq!(hex_to_rgb("#61AFEF").unwrap(), hex_to_rgb("61AFEF").unwrap());
    assert_eq!(hex_to_rgb("##61AFEF").unwrap(), (97, 175, 239));
    assert_eq!(hex_to_rgb(" #61AFEF\t").unwrap(), (97, 175, 239));
}

#[test]
fn hex_check_answers_for_ascii_input() {
    assert!(hex_is_ok("#ff6600"));
    assert!(hex_is_ok("#zz"));
    assert!(hex_is_ok(""));
}

#[test]
fn theme_names_are_case_insensitive() {
    assert_eq!(Theme::by_name("Dracula").unwrap().title, Theme::dracula().title);
    assert_eq!(Theme::by_name("LIGHT").unwrap().body, Theme::light().body);
    assert_eq!(Theme::nord().title, "#88C0D0");
    assert_eq!(Theme::dark().title, "#61AFEF");
}

#[test]
fn colorize_carries_text_and_color() {
    let p = colorize_hex("hello", "#ff6600");
    assert_eq!(p.text, "hello");
    assert_eq!(p.fg, Some((255, 102, 0)));
    assert_eq!(p.bg, None);
    let q = colorize_hex("plain", "nothex");
    assert_eq!(q.fg, None);
    assert!(q.emphasis.is_empty());
}

#[test]
fn show_keeps_the_text() {
    let r = Renderer::new(Theme::dark(), 80, false);
    let out = r.try_render(&vec![Piece::Styled(Role::Title, "Rust".into())]).unwrap();
    assert!(out.contains("Rust"), "got: {out:?}");
    assert!(out == "Rust" || (out.starts_with("\x1b[") && out.ends_with("\x1b[0m")), "got: {out:?}");
}

#[test]
fn error_role_is_bold() {
    let p = Theme::dark().error("oops");
    assert_eq!(p.fg, Some((0xE0, 0x6C, 0x75)));
    assert!(!p.emphasis.is_empty());
}

#[test]
fn hex_digits_only() {
    for bad in ["#+f+f+f", "+ff", "#-12345", "#12 456", "#0x1234"] {
        match hex_to_rgb(bad) {
            Err(WikiError::InvalidColor(_)) => {}
            other => panic!("{bad}: unexpected {:?}", other),
        }
    }
    match hex_to_rgb("#+f+f+f") {
        Err(e) => assert_eq!(e.message(), "invalid color '#+f+f+f': expected #RRGGBB or #RGB"),
        Ok(c) => panic!("unexpected {:?}", c),
    }
    assert_eq!(hex_to_rgb("#aBc123").unwrap(), (0xab, 0xc1, 0x23));
}
