use wiky::client::{
    article_from_extract, article_params, article_url, decode_entities_str,
    disambiguation_choices, id_params, parse_wikitext_disambig, search_params, search_results,
    strip_html, summary_from_extract, summary_params, title_for_id, urlencode,
    wiki_sections_to_markdown, wikitext_from, wikitext_params, Article, ExtractPage, SearchItem,
};
use wiky::WikiError;

fn article(title: &str, content: &str, categories: Vec<String>) -> Article {
    Article {
        title: title.into(),
        content: content.into(),
        url: String::new(),
        lang: "en".into(),
        pageid: 1,
        categories,
        summary: String::new(),
    }
}

fn pairs(ps: &[(String, String)]) -> Vec<(&str, &str)> {
    ps.iter().map(|(a, b)| (a.as_str(), b.as_str())).collect()
}

#[test]
fn strip_html_tags_and_entities() {
    assert_eq!(strip_html("<b>hello</b> &amp; world"), "hello & world");
    assert_eq!(strip_html("&#039;quoted&#039;"), "'quoted'");
    assert_eq!(strip_html("AT&amp;T"), "AT&T");
}

#[test]
fn parse_wikitext_disambig_extracts_links() {
    let wikitext = r#"
'''Michael Orlando''' may refer to:
*Michael Orlando, band member of [[Vampires Everywhere!]]
*Michael Orlando, acting director of the [[National Counterintelligence and Security Center]]
{{disambig}}
"#;
    let opts = parse_wikitext_disambig(wikitext, "Michael Orlando");
    assert_eq!(opts.len(), 2, "expected 2 options, got: {:?}", opts);
    assert_eq!(opts[0].title, "Vampires Everywhere!");
    assert_eq!(
        opts[1].title,
        "National Counterintelligence and Security Center"
    );
}

#[test]
fn parse_wikitext_disambig_pipe_links() {
    let wikitext = "* [[Some Article|display text here]], extra info";
    let opts = parse_wikitext_disambig(wikitext, "Other");
    assert_eq!(opts.len(), 1);
    assert_eq!(opts[0].title, "Some Article");
}

#[test]
fn parse_wikitext_disambig_skips_self_links() {
    let wikitext = "* [[Michael Orlando]] disambiguation
* [[Vampires Everywhere!]]";
    let opts = parse_wikitext_disambig(wikitext, "Michael Orlando");
    assert_eq!(opts.len(), 1);
    assert_eq!(opts[0].title, "Vampires Everywhere!");
}

#[test]
fn wiki_h2_converted() {
    let out = wiki_sections_to_markdown("Intro\n\n== History ==\n\nText.");
    assert!(out.contains("## History"), "got: {out}");
    assert!(!out.contains("=="), "should not contain raw == : {out}");
}

#[test]
fn wiki_h3_converted() {
    let out = wiki_sections_to_markdown("=== Sub ===\nContent");
    assert_eq!(out.trim(), "### Sub\nContent");
}

#[test]
fn wiki_h4_not_double_matched() {
    let out = wiki_sections_to_markdown("==== Deep ====");
    assert_eq!(out.trim(), "#### Deep");
}

#[test]
fn blank_lines_collapsed() {
    let out = wiki_sections_to_markdown("a\n\n\n\nb");
    assert!(out.contains("a\n\nb"), "got: {out}");
}

#[test]
fn strip_html_removes_tags() {
    assert_eq!(strip_html("<b>bold</b> text"), "bold text");
    assert_eq!(strip_html("<a href='x'>link</a>"), "link");
}

#[test]
fn strip_html_decodes_entities() {
    assert_eq!(strip_html("AT&amp;T"), "AT&T");
    assert_eq!(strip_html("&lt;tag&gt;"), "<tag>");
    assert_eq!(strip_html("&nbsp;"), " ");
}

#[test]
fn strip_html_edge_cases() {
    assert_eq!(strip_html("a <> b"), "a <> b");
    assert_eq!(strip_html("x < y"), "x < y");
    assert_eq!(strip_html("&amp;lt;"), "&lt;");
    assert_eq!(decode_entities_str("&amp;amp;&lt;&gt;"), "&amp;<>");
    assert_eq!(decode_entities_str("&&amp;;"), "&&;");
    assert_eq!(decode_entities_str("&mdash;&ndash;&hellip;&laquo;&raquo;&#39;&quot;"), "—–…«»'\"");
}

#[test]
fn section_markup_details() {
    assert_eq!(wiki_sections_to_markdown("==  Spaced   ==\nx"), "## Spaced\nx");
    assert_eq!(wiki_sections_to_markdown("== Open\nx"), "== Open\nx");
    assert_eq!(wiki_sections_to_markdown("\n\n  body  \n\n"), "body");
    assert_eq!(wiki_sections_to_markdown("==== A ====\n\n\n=== B ===\n== C =="), "#### A\n\n### B\n## C");
}

#[test]
fn article_urls_use_underscores() {
    assert_eq!(urlencode("Rust (programming language)"), "Rust_(programming_language)");
    assert_eq!(article_url("en", "Eiffel Tower"), "https://en.wikipedia.org/wiki/Eiffel_Tower");
}

#[test]
fn search_answer_becomes_results() {
    let items = vec![
        SearchItem { title: "Rust".into(), snippet: "<span>safe</span> &amp; fast".into(), wordcount: 42, pageid: 7 },
        SearchItem { title: "Go".into(), snippet: "simple".into(), wordcount: 0, pageid: 9 },
    ];
    let rs = search_results(None, Some(items), 10).unwrap();
    assert_eq!(rs.len(), 2);
    assert_eq!(rs[0].title, "Rust");
    assert_eq!(rs[0].snippet, "safe & fast");
    assert_eq!(rs[0].wordcount, 42);
    assert_eq!(rs[1].pageid, 9);
    assert!(search_results(None, None, 10).unwrap().is_empty());
    match search_results(Some("bad query".into()), None, 10) {
        Err(WikiError::Api(m)) => assert_eq!(m, "bad query"),
        other => panic!("unexpected {:?}", other),
    }
}

#[test]
fn extract_answer_becomes_article() {
    let page = ExtractPage {
        pageid: 5,
        title: "Rust (programming language)".into(),
        extract: "Rust is a language.\nIt is fast.\n\n\n== History ==\nStarted 2006.".into(),
        categories: vec!["Category:Programming languages".into(), "Category:Category:Odd".into()],
        missing: false,
    };
    let a = article_from_extract("en", "rust", None, Some(page)).unwrap();
    assert_eq!(a.title, "Rust (programming language)");
    assert_eq!(a.content, "Rust is a language.\nIt is fast.\n\n## History\nStarted 2006.");
    assert_eq!(a.summary, "Rust is a language.\nIt is fast.");
    assert_eq!(a.url, "https://en.wikipedia.org/wiki/Rust_(programming_language)");
    assert_eq!(a.lang, "en");
    assert_eq!(a.pageid, 5);
    assert_eq!(a.categories, vec!["Programming languages".to_string(), "Odd".to_string()]);
}

#[test]
fn extract_answer_errors() {
    match article_from_extract("en", "Nope", None, None) {
        Err(WikiError::NotFound(m)) => assert_eq!(m, "Nope"),
        other => panic!("unexpected {:?}", other),
    }
    let missing = ExtractPage { pageid: 0, title: "Nope".into(), extract: String::new(), categories: vec![], missing: true };
    match article_from_extract("en", "Nope", None, Some(missing)) {
        Err(WikiError::NotFound(m)) => assert_eq!(m, "Nope"),
        other => panic!("unexpected {:?}", other),
    }
    match summary_from_extract("en", "X", Some("maxlag".into()), None) {
        Err(WikiError::Api(m)) => assert_eq!(m, "maxlag"),
        other => panic!("unexpected {:?}", other),
    }
}

#[test]
fn summary_answer_is_trimmed_extract() {
    let page = ExtractPage { pageid: 3, title: "Paris".into(), extract: "  Paris is a city.\n".into(), categories: vec!["Category:Cities".into()], missing: false };
    let a = summary_from_extract("fr", "paris", None, Some(page)).unwrap();
    assert_eq!(a.summary, "Paris is a city.");
    assert_eq!(a.content, "Paris is a city.");
    assert_eq!(a.url, "https://fr.wikipedia.org/wiki/Paris");
    assert!(a.categories.is_empty());
}

#[test]
fn summary_is_cut_at_800_characters() {
    let long = "é".repeat(1000);
    let page = ExtractPage { pageid: 1, title: "Long".into(), extract: long, categories: vec![], missing: false };
    let a = article_from_extract("en", "Long", None, Some(page)).unwrap();
    assert_eq!(a.summary.chars().count(), 800);
    assert_eq!(a.content.chars().count(), 1000);
}

#[test]
fn page_id_lookup() {
    assert_eq!(title_for_id(42, Some("Answer".into())).unwrap(), "Answer");
    match title_for_id(12345, None) {
        Err(e) => {
            assert!(matches!(e, WikiError::NotFound(ref m) if m == "12345"));
            assert_eq!(e.message(), "article not found: '12345'");
        }
        Ok(t) => panic!("unexpected {t}"),
    }
}

#[test]
fn request_parameters() {
    let s = search_params("rust lang", 5);
    assert_eq!(
        pairs(&s),
        vec![
            ("action", "query"),
            ("list", "search"),
            ("srsearch", "rust lang"),
            ("srlimit", "5"),
            ("srprop", "snippet|wordcount"),
            ("format", "json"),
            ("formatversion", "2"),
            ("utf8", "1"),
        ]
    );
    let a = article_params("Rust");
    assert_eq!(a.len(), 10);
    assert_eq!(pairs(&a)[1], ("titles", "Rust"));
    assert_eq!(pairs(&a)[2], ("prop", "extracts|categories"));
    assert_eq!(pairs(&a)[5], ("cllimit", "50"));
    let m = summary_params("Rust");
    assert_eq!(pairs(&m)[3], ("exintro", "1"));
    let i = id_params(255);
    assert_eq!(pairs(&i), vec![("action", "query"), ("pageids", "255"), ("format", "json"), ("formatversion", "2")]);
    let w = wikitext_params("Mercury");
    assert_eq!(pairs(&w)[2], ("prop", "revisions"));
    assert_eq!(pairs(&w)[4], ("rvslots", "main"));
}

#[test]
fn disambiguation_detection() {
    assert!(article("Mercury", "x", vec!["All disambiguation pages".into()]).is_disambiguation());
    assert!(article("Mercury (disambiguation)", "x", vec![]).is_disambiguation());
    assert!(article("Mercury", "  Mercury may refer to:\n* a planet", vec![]).is_disambiguation());
    assert!(!article("Mercury", "Mercury is a planet.", vec!["Planets".into()]).is_disambiguation());
}

#[test]
fn plain_text_options_from_content() {
    let a = article(
        "Mercury",
        "Mercury may refer to:\n\nMercury (planet), the first planet\n== Science ==\nMercury, the element in chemistry and more\n# note\nMercury",
        vec![],
    );
    let opts = a.disambiguation_options();
    assert_eq!(opts.len(), 2, "got {:?}", opts);
    assert_eq!(opts[0].label, "Mercury (planet), the first planet");
    assert_eq!(opts[0].title, "Mercury (planet)");
    assert_eq!(opts[0].description, "the first planet");
    assert_eq!(opts[1].title, "Mercury the element in chemistry");
    assert_eq!(opts[1].description, "the element in chemistry and more");
    for o in &opts {
        assert!(!o.label.is_empty() && o.label != "Mercury");
    }
}

#[test]
fn wikitext_labels_and_descriptions() {
    let opts = parse_wikitext_disambig(
        "** nested [[Skip]]\n* {{template}}\n* ''[[Mercury (planet)|Mercury]]'', the planet\n* no link here",
        "Mercury",
    );
    assert_eq!(opts.len(), 1, "got {:?}", opts);
    assert_eq!(opts[0].title, "Mercury (planet)");
    assert_eq!(opts[0].label, "''Mercury'', the planet");
    assert_eq!(opts[0].description, "the planet");
}

#[test]
fn disambiguation_choices_fall_back_to_plain_text() {
    let a = article("Mercury", "Mercury (planet), the first planet", vec![]);
    let from_wikitext = disambiguation_choices(&a, "* [[Mercury (element)]]");
    assert_eq!(from_wikitext.len(), 1);
    assert_eq!(from_wikitext[0].title, "Mercury (element)");
    let fallback = disambiguation_choices(&a, "");
    assert_eq!(fallback.len(), 1);
    assert_eq!(fallback[0].title, "Mercury (planet)");
}

#[test]
fn section_markers_follow_the_heading_patterns() {
    assert_eq!(wiki_sections_to_markdown("==a=="), "## a");
    assert_eq!(wiki_sections_to_markdown("== a == b =="), "## a == b");
    assert_eq!(wiki_sections_to_markdown("===="), "====");
    assert_eq!(wiki_sections_to_markdown("====="), "## =");
    assert_eq!(wiki_sections_to_markdown("==  =="), "##");
    assert_eq!(wiki_sections_to_markdown("== a\n=="), "## a");
    assert_eq!(wiki_sections_to_markdown("x\n==\na ==\ny"), "x\n## a\ny");
    assert_eq!(wiki_sections_to_markdown("=== Mixed =="), "## = Mixed");
}

#[test]
fn tags_are_matched_from_the_leftmost_bracket() {
    assert_eq!(strip_html("<a<b>c"), "c");
    assert_eq!(strip_html("a>b<"), "a>b<");
    assert_eq!(strip_html("<i>x</i><br/>y"), "xy");
}

#[test]
fn plain_text_titles_end_at_a_comma_or_dash() {
    let a = article(
        "Mercury",
        "Freddie Mercury – British singer\nMercury — a planet of the Solar System\nJean-Luc Mercury - chef\nMercury-Redstone rocket",
        vec![],
    );
    let opts = a.disambiguation_options();
    assert_eq!(opts.len(), 4, "got {:?}", opts);
    assert_eq!(opts[0].label, "Freddie Mercury – British singer");
    assert_eq!(opts[0].title, "Freddie Mercury");
    assert_eq!(opts[0].description, "British singer");
    assert_eq!(opts[1].title, "Mercury a planet of the");
    assert_eq!(opts[1].description, "a planet of the Solar System");
    assert_eq!(opts[2].title, "Jean-Luc Mercury");
    assert_eq!(opts[2].description, "chef");
    assert_eq!(opts[3].title, "Mercury-Redstone rocket");
    assert_eq!(opts[3].description, "");
}

#[test]
fn search_results_stop_at_the_limit() {
    let items: Vec<SearchItem> = (0..11u64)
        .map(|i| SearchItem { title: format!("T{i}"), snippet: String::new(), wordcount: 1, pageid: i })
        .collect();
    let rs = search_results(None, Some(items), 10).unwrap();
    assert_eq!(rs.len(), 10);
    assert_eq!(rs[9].title, "T9");
    let few = vec![SearchItem { title: "A".into(), snippet: String::new(), wordcount: 0, pageid: 1 }];
    assert_eq!(search_results(None, Some(few), 5).unwrap().len(), 1);
    let one = vec![SearchItem { title: "A".into(), snippet: String::new(), wordcount: 0, pageid: 1 }];
    assert!(search_results(None, Some(one), 0).unwrap().is_empty());
}

#[test]
fn wikitext_of_first_revision_of_first_page() {
    assert_eq!(wikitext_from(Some(vec![vec!["one".into(), "two".into()], vec!["three".into()]])), "one");
    assert_eq!(wikitext_from(Some(vec![vec![], vec!["three".into()]])), "");
    assert_eq!(wikitext_from(Some(vec![])), "");
    assert_eq!(wikitext_from(None), "");
}
