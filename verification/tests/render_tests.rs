use wiky::client::{Article, DisambigOption, SearchResult};
use wiky::config::Config;
use wiky::render::{can_render, render, Piece, Renderer};
use wiky::theme::{Role, Theme};

fn renderer() -> Renderer {
    Renderer::new(Theme::dark(), 80, false)
}

fn plain(s: &str) -> String {
    let mut out = String::new();
    let mut chars = s.chars().peekable();
    while let Some(c) = chars.next() {
        if c == '\x1b' && chars.peek() == Some(&'[') {
            for d in chars.by_ref() {
                if d == 'm' {
                    break;
                }
            }
        } else {
            out.push(c);
        }
    }
    out
}

fn shown(r: &Renderer, ps: &Vec<Piece>) -> String {
    plain(&r.try_render(ps).expect("all colors of the theme are valid"))
}

fn sample_article() -> Article {
    Article {
        title: "Test Article".into(),
        content: "Some content.".into(),
        url: "https://en.wikipedia.org/wiki/Test".into(),
        lang: "en".into(),
        pageid: 1,
        categories: vec![],
        summary: "Some content.".into(),
    }
}

#[test]
fn article_to_string_contains_title() {
    let r = renderer();
    let article = Article {
        title: "Test Article".into(),
        content: "Some content.".into(),
        url: "https://en.wikipedia.org/wiki/Test".into(),
        lang: "en".into(),
        pageid: 1,
        categories: vec![],
        summary: "Some content.".into(),
    };
    let s = r.article_to_string(&article);
    assert!(s.contains("Test Article"), "got: {s}");
}

#[test]
fn wrap_respects_width() {
    let r = Renderer::new(Theme::dark(), 40, true);
    let long = "This is a long line that should be wrapped at 40 columns by textwrap.";
    let lines = r.wrap(long, "");
    assert!(lines.len() > 1);
}

#[test]
fn wrap_keeps_every_line_within_width_and_indents() {
    let r = Renderer::new(Theme::dark(), 30, false);
    let lines = r.wrap("alpha beta gamma delta epsilon zeta eta theta iota kappa", "    ");
    assert!(lines.len() > 1);
    for l in &lines {
        assert!(l.starts_with("    "), "got: {l:?}");
        assert!(l.chars().count() <= 30, "got: {l:?}");
    }
    let joined: Vec<&str> = lines.iter().flat_map(|l| l.split_whitespace()).collect();
    assert_eq!(joined.join(" "), "alpha beta gamma delta epsilon zeta eta theta iota kappa");
}

#[test]
fn article_layout_plain_text() {
    let r = renderer();
    let mut a = sample_article();
    a.content = "Intro line.\n## History\nOld.\n### Early\n#### Detail\n\n  • point".into();
    a.categories = vec!["A".into(), "B".into()];
    let s = plain(&r.article_to_string(&a));
    let sep = "─".repeat(80);
    let expected = format!(
        "\n Test Article\n{sep}\n https://en.wikipedia.org/wiki/Test\n\nIntro line.\n\n History\n{}\nOld.\n   Early\n  Detail\n\n  • point\n\n{sep}\n Categories:\n  [A]    [B]\n\n",
        "─".repeat(9)
    );
    assert_eq!(s, expected);
}

#[test]
fn article_output_shows_title_with_emoji() {
    let r = Renderer::new(Theme::nord(), 100, true);
    let mut a = sample_article();
    a.title = "Ünïcode Title".into();
    let s = plain(&r.article_to_string(&a));
    assert!(s.starts_with("\n📖 Ünïcode Title\n"), "got: {s:?}");
}

#[test]
fn summary_layout_plain_text() {
    let r = renderer();
    let mut a = sample_article();
    a.summary = String::new();
    let s = plain(&r.summary_to_string(&a));
    let sep = "─".repeat(80);
    assert_eq!(
        s,
        format!("\n Test Article\n{sep}\n https://en.wikipedia.org/wiki/Test\n\n(no summary available)\n\n")
    );
    a.summary = "Short.".into();
    let s = plain(&r.summary_to_string(&a));
    assert!(s.ends_with("\n\nShort.\n\n"), "got: {s:?}");
}

#[test]
fn search_layout_plain_text() {
    let r = renderer();
    let sep = "─".repeat(80);
    let none = plain(&r.search_to_string("zzz", &[]));
    assert_eq!(none, format!("\n Search: \"zzz\"  (0 results)\n{sep}\n No results found for \"zzz\"\n"));
    let results = vec![
        SearchResult { title: "Rust".into(), snippet: "a\nlanguage".into(), wordcount: 12, pageid: 1 },
        SearchResult { title: "Go".into(), snippet: String::new(), wordcount: 0, pageid: 2 },
    ];
    let s = plain(&r.search_to_string("lang", &results));
    let expected = format!(
        "\n Search: \"lang\"  (2 results)\n{sep}\n\n[1]  Rust\n    12 words\n    a language\n\n[2]  Go\n\n{sep}\n  tip: use `wiky get \"<title>\"` to read an article\n\n"
    );
    assert_eq!(s, expected);
}

#[test]
fn messages_plain_text() {
    let r = renderer();
    assert_eq!(shown(&r, &r.message_pieces("hello")), "hello\n");
    assert_eq!(shown(&r, &r.success_pieces("Saved")), " Saved\n");
    assert_eq!(shown(&r, &r.error_pieces("Broken")), " Broken\n");
    let e = Renderer::new(Theme::dark(), 80, true);
    assert_eq!(shown(&e, &e.success_pieces("Saved")), "✅ Saved\n");
    assert_eq!(shown(&e, &e.error_pieces("Broken")), "⚠️ Broken\n");
    assert_eq!(plain(&r.dim_str("quiet")), "quiet");
}

#[test]
fn themes_list_marks_active_theme() {
    let r = Renderer::new(Theme::nord(), 20, false);
    let s = shown(&r, &r.themes_list_pieces());
    let sep = "─".repeat(20);
    let expected = format!(
        "\n🎨  Available Themes\n{sep}\n   dark\n   light\n   solarized\n   nord ← active\n   dracula\n   custom\n\n  Set theme: wiky config set theme <name>\n\n"
    );
    assert_eq!(s, expected);
}

#[test]
fn config_listing_plain_text() {
    let r = renderer();
    let c = Config::default();
    let s = shown(&r, &r.config_info_pieces(&c, Some("/home/u/.config/wiky/default-config.toml")));
    let sep = "─".repeat(80);
    let mut expected = format!("\n⚙️  wiky Configuration\n{sep}\n");
    for (k, v) in [
        ("language", "en"),
        ("theme", "dark"),
        ("width", "0"),
        ("pager", "false"),
        ("results_count", "10"),
        ("open_urls", "false"),
    ] {
        expected.push_str(&format!("  {:<20} {}\n", k, v));
    }
    expected.push_str(&format!("\n  {:<20} {}\n\n", "config file", "/home/u/.config/wiky/default-config.toml"));
    assert_eq!(s, expected);
    let s = shown(&r, &r.config_info_pieces(&c, None));
    assert!(s.ends_with(&format!("  {:<20} false\n\n", "open_urls")), "got: {s:?}");
}

#[test]
fn disambiguation_menu_plain_text() {
    let r = renderer();
    let mut a = sample_article();
    a.title = "Mercury".into();
    let opts = vec![
        DisambigOption { label: "Mercury (planet)".into(), title: "Mercury (planet)".into(), description: String::new() },
        DisambigOption { label: "Mercury (element)".into(), title: "Mercury (element)".into(), description: String::new() },
    ];
    let s = shown(&r, &r.disambiguation_pieces(&a, &opts));
    let sep = "─".repeat(80);
    let expected = format!(
        "\n🔀  Mercury — disambiguation\n{sep}\n  This page has multiple meanings. Choose one:\n\n  [1] Mercury (planet)\n  [2] Mercury (element)\n\n  [0] quit / go back\n\n"
    );
    assert_eq!(s, expected);
}

#[test]
fn categories_listing_plain_text() {
    let r = renderer();
    let mut a = sample_article();
    let s = shown(&r, &r.categories_pieces(&a));
    let sep = "─".repeat(60);
    assert_eq!(s, format!("\n🏷️  Categories — Test Article\n{sep}\n  (none found)\n\n"));
    a.categories = vec!["X".into(), "Y".into()];
    let s = shown(&r, &r.categories_pieces(&a));
    assert_eq!(s, format!("\n🏷️  Categories — Test Article\n{sep}\n  • X\n  • Y\n\n"));
}

#[test]
fn render_refuses_colors_that_would_panic() {
    let mut t = Theme::dark();
    t.body = "#€".into();
    let ps = vec![Piece::Styled(Role::Body, "x".into())];
    assert!(!can_render(&t, &ps));
    let r = Renderer::new(t, 80, false);
    assert!(r.try_render(&ps).is_none());
    let ok = vec![Piece::Text("plain".into())];
    assert_eq!(r.try_render(&ok).unwrap(), "plain");
    assert_eq!(render(&Theme::dark(), &ok), "plain");
}

#[test]
fn invalid_color_renders_unstyled() {
    let mut t = Theme::dark();
    t.body = "nope".into();
    let r = Renderer::new(t, 80, false);
    let s = r.try_render(&r.message_pieces("text")).unwrap();
    assert_eq!(s, "text\n");
}

#[test]
fn wrapped_lines_become_role_lines() {
    let mut ps: Vec<Piece> = Vec::new();
    Renderer::put_role_lines(&mut ps, &vec!["one".to_string(), "two".to_string()], Role::Body);
    assert_eq!(ps.len(), 4);
    assert_eq!(shown(&renderer(), &ps), "one\ntwo\n");
}

#[test]
fn builtin_themes_render_and_mark_themselves() {
    for name in ["dark", "light", "solarized", "nord", "dracula"] {
        let t = Theme::by_name(name).unwrap();
        for c in [
            &t.title, &t.heading, &t.subheading, &t.body, &t.link, &t.bold, &t.italic, &t.code,
            &t.result_title, &t.result_snippet, &t.result_index, &t.separator, &t.error,
            &t.success, &t.dim,
        ] {
            assert!(wiky::theme::hex_to_rgb(c).is_ok(), "{name}: {c}");
        }
        let r = Renderer::new(t, 50, true);
        assert!(r.try_render(&r.article_pieces(&sample_article())).is_some());
        let list = shown(&r, &r.themes_list_pieces());
        assert!(list.contains(&format!(" {name} ← active\n")), "{name}: {list}");
        assert_eq!(list.matches("← active").count(), 1);
    }
}
