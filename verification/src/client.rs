//! Wikipedia content: search results, articles and disambiguation options,
//! and the text processing that turns MediaWiki API answers into them.
//!
//! The requests themselves are made by the program around the library; it
//! hands the decoded answers to the functions here, which decide what the
//! caller gets: a value or an error.

use vstd::prelude::*;

use crate::markup::{
    decode_entities, decode_entities_exec, first_link, first_link_exec, link_at, link_at_exec,
    sections_to_markdown, sections_to_markdown_exec, strip_html_spec, strip_leading,
    strip_leading_exec, strip_markup, strip_markup_from, strip_tags,
};
use crate::error::WikiError;
use crate::text::{
    chars_of, contains, contains_exec, owned, ends_with, ends_with_exec, eq_chars, eq_ignore_ascii_case,
    eq_ignore_ascii_case_exec, extend_chars, extend_str, join, join_exec, lines, lines_exec,
    first_n, lowercase, replace, replace_exec, slice_chars, split_once, split_once_exec, starts_with,
    starts_with_exec, string_of, to_lowercase, trim, trim_exec, trim_start, trim_start_exec, words,
    words_exec,
};

verus! {

/// A Wikipedia search result.
#[derive(Debug, Clone)]
pub struct SearchResult {
    pub title: String,
    pub snippet: String,
    pub wordcount: u32,
    pub pageid: u64,
}

/// A result as `(title, snippet, wordcount, pageid)`.
impl View for SearchResult {
    type V = (Seq<char>, Seq<char>, u32, u64);

    open spec fn view(&self) -> (Seq<char>, Seq<char>, u32, u64) {
        (self.title@, self.snippet@, self.wordcount, self.pageid)
    }
}

/// A full Wikipedia article.
#[derive(Debug, Clone)]
pub struct Article {
    pub title: String,
    pub content: String,
    pub url: String,
    pub lang: String,
    pub pageid: u64,
    pub categories: Vec<String>,
    pub summary: String,
}

/// A single option on a disambiguation page.
#[derive(Debug, Clone)]
pub struct DisambigOption {
    /// Full description line from the disambiguation page.
    pub label: String,
    /// Best-guess Wikipedia article title to fetch for this option.
    pub title: String,
    /// The description part (after the title in the label), used for display.
    pub description: String,
}

/// An option as `(label, title, description)`.
impl View for DisambigOption {
    type V = (Seq<char>, Seq<char>, Seq<char>);

    open spec fn view(&self) -> (Seq<char>, Seq<char>, Seq<char>) {
        (self.label@, self.title@, self.description@)
    }
}

/// The texts of a list of strings.
pub open spec fn texts(v: Seq<String>) -> Seq<Seq<char>> {
    v.map_values(|s: String| s@)
}

/// The views of a list of options.
pub open spec fn option_views(v: Seq<DisambigOption>) -> Seq<(Seq<char>, Seq<char>, Seq<char>)> {
    v.map_values(|o: DisambigOption| o@)
}

// ─── Disambiguation pages ────────────────────────────────────────────────────

/// Whether an article with these fields is a disambiguation page: a category
/// containing "disambiguation" (lower-cased), a title ending with
/// "(disambiguation)" (lower-cased), or content that starts (after leading
/// whitespace) with the title and contains "may refer to".
pub open spec fn is_disambiguation_page(
    title: Seq<char>,
    content: Seq<char>,
    categories: Seq<Seq<char>>,
) -> bool {
    disambiguation_signs_of(
        title,
        content,
        lowercase(title),
        categories.map_values(|c: Seq<char>| lowercase(c)),
    )
}

/// The signs of a disambiguation page, given the lower-cased title and the
/// lower-cased categories.
pub open spec fn disambiguation_signs_of(
    title: Seq<char>,
    content: Seq<char>,
    lowered_title: Seq<char>,
    lowered_categories: Seq<Seq<char>>,
) -> bool {
    ||| exists|i: int|
        0 <= i < lowered_categories.len() && contains(
            #[trigger] lowered_categories[i],
            "disambiguation"@,
        )
    ||| ends_with(lowered_title, "(disambiguation)"@)
    ||| starts_with(trim_start(content), title) && contains(content, "may refer to"@)
}

/// Whether an article with this title and content is a disambiguation
/// page, given its lower-cased title and lower-cased categories.
pub fn disambiguation_signs(
    title: &str,
    content: &str,
    lowered_title: &str,
    lowered_categories: &Vec<String>,
) -> (b: bool)
    ensures
        b == disambiguation_signs_of(title@, content@, lowered_title@, texts(lowered_categories@)),
{
    let needle = chars_of("disambiguation");
    let ghost lc = texts(lowered_categories@);
    let mut i: usize = 0;
    while i < lowered_categories.len()
        invariant
            0 <= i <= lowered_categories.len(),
            needle@ == "disambiguation"@,
            lc == texts(lowered_categories@),
            forall|j: int| 0 <= j < i ==> !contains(#[trigger] lc[j], "disambiguation"@),
        decreases lowered_categories.len() - i,
    {
        if contains_exec(&chars_of(lowered_categories[i].as_str()), &needle) {
            assert(lc[i as int] == lowered_categories@[i as int]@);
            return true;
        }
        assert(lc[i as int] == lowered_categories@[i as int]@);
        i = i + 1;
    }
    if ends_with_exec(&chars_of(lowered_title), &chars_of("(disambiguation)")) {
        return true;
    }
    let cv = chars_of(content);
    let ts = trim_start_exec(&cv);
    starts_with_exec(&ts, &chars_of(title)) && contains_exec(&cv, &chars_of("may refer to"))
}

/// A trimmed content line that describes an option: not empty, not the page
/// title, not the "may refer to" line, not a heading.
pub open spec fn is_option_line(l: Seq<char>, page_title: Seq<char>) -> bool {
    &&& l.len() > 0
    &&& l != page_title
    &&& !ends_with(l, "may refer to:"@)
    &&& !ends_with(l, "may refer to"@)
    &&& !starts_with(l, "#"@)
    &&& !starts_with(l, "=="@)
}

/// Character `i` of `l` ends a title guess: a comma, an en or em dash, or
/// a hyphen with a space on each side (a hyphen inside a word is no dash).
pub open spec fn is_title_separator(l: Seq<char>, i: int) -> bool {
    ||| l[i] == ','
    ||| l[i] == '–'
    ||| l[i] == '—'
    ||| (l[i] == '-' && 0 < i && i + 1 < l.len() && l[i - 1] == ' ' && l[i + 1] == ' ')
}

/// The position of the first title separator at or after `i`, if any.
pub open spec fn first_separator(l: Seq<char>, i: int) -> Option<int>
    decreases l.len() - i,
{
    if i < 0 || i >= l.len() {
        None
    } else if is_title_separator(l, i) {
        Some(i)
    } else {
        first_separator(l, i + 1)
    }
}

/// The option that a line describes. The title guess is the part of the
/// line before its first comma or dash, the description what follows it
/// (trimmed); where the part before is the page title itself (ASCII case
/// ignored), the title guess is the page title followed by the first four
/// words of the description.
pub open spec fn option_of_line(l: Seq<char>, page_title: Seq<char>) -> (
    Seq<char>,
    Seq<char>,
    Seq<char>,
) {
    match first_separator(l, 0) {
        Some(p) => {
            let a = l.take(p);
            let b = trim(l.skip(p + 1));
            if eq_ignore_ascii_case(trim(a), page_title) {
                (l, page_title + " "@ + join(first_n(words(b), 4), " "@), b)
            } else {
                (l, trim(a), b)
            }
        },
        None => (l, trim(l), Seq::empty()),
    }
}

/// The position of the first title separator in `l`, if any.
fn first_separator_exec(l: &[char]) -> (r: Option<usize>)
    ensures
        match r {
            Some(p) => first_separator(l@, 0) == Some(p as int) && p < l.len(),
            None => first_separator(l@, 0) is None,
        },
{
    let mut i: usize = 0;
    while i < l.len()
        invariant
            0 <= i <= l.len(),
            first_separator(l@, 0) == first_separator(l@, i as int),
        decreases l.len() - i,
    {
        let c = l[i];
        if c == ',' || c == '–' || c == '—' || (c == '-' && 0 < i && i + 1 < l.len() && l[i - 1]
            == ' ' && l[i + 1] == ' ') {
            return Some(i);
        }
        i = i + 1;
    }
    None
}

/// The options described by the lines `ls` (each trimmed first).
pub open spec fn options_of_lines(ls: Seq<Seq<char>>, page_title: Seq<char>) -> Seq<
    (Seq<char>, Seq<char>, Seq<char>),
>
    decreases ls.len(),
{
    if ls.len() == 0 {
        Seq::empty()
    } else {
        let rest = options_of_lines(ls.drop_last(), page_title);
        let l = trim(ls.last());
        if is_option_line(l, page_title) {
            rest.push(option_of_line(l, page_title))
        } else {
            rest
        }
    }
}

/// The options of a disambiguation page, read from its plain-text content.
pub open spec fn plain_text_options(title: Seq<char>, content: Seq<char>) -> Seq<
    (Seq<char>, Seq<char>, Seq<char>),
> {
    options_of_lines(lines(content), trim(title))
}

/// The option that a wikitext line gives, if any: a `*` bullet (not `**`)
/// whose body is not a template call and holds a link that does not point
/// back to the page itself. The label is the body with its markup reduced
/// to readable text, the description what follows its first ", ".
pub open spec fn wikitext_option(raw: Seq<char>, page_title: Seq<char>) -> Option<
    (Seq<char>, Seq<char>, Seq<char>),
> {
    let line = trim(raw);
    if !starts_with(line, "*"@) || starts_with(line, "**"@) {
        None
    } else {
        let body = trim(strip_leading(line, '*'));
        if starts_with(body, "{{"@) || body.len() == 0 {
            None
        } else {
            match first_link(body, 0) {
                None => None,
                Some(i) => {
                    let k = match link_at(body, i) {
                        Some((k, e)) => k,
                        None => i,
                    };
                    let target = trim(body.subrange(i + 2, k));
                    let label = trim(strip_markup_from(body, 0));
                    let description = match split_once(label, ", "@) {
                        Some((a, b)) => b,
                        None => Seq::empty(),
                    };
                    if eq_ignore_ascii_case(target, page_title) {
                        None
                    } else {
                        Some((label, target, description))
                    }
                },
            }
        }
    }
}

/// The options that the wikitext lines `ls` give, in order.
pub open spec fn wikitext_options(ls: Seq<Seq<char>>, page_title: Seq<char>) -> Seq<
    (Seq<char>, Seq<char>, Seq<char>),
>
    decreases ls.len(),
{
    if ls.len() == 0 {
        Seq::empty()
    } else {
        let rest = wikitext_options(ls.drop_last(), page_title);
        match wikitext_option(ls.last(), page_title) {
            Some(o) => rest.push(o),
            None => rest,
        }
    }
}

/// The option that the trimmed line `l` describes.
fn option_of_line_exec(l: &[char], page_title: &[char]) -> (o: DisambigOption)
    ensures
        o@ == option_of_line(l@, page_title@),
{
    let label = string_of(l);
    match first_separator_exec(l) {
        Some(p) => {
            let a = slice_chars(l, 0, p);
            let b = trim_exec(&slice_chars(l, p + 1, l.len()));
            assert(a@ =~= l@.take(p as int));
            assert(b@ == trim(l@.skip(p + 1))) by {
                assert(l@.subrange(p + 1, l.len() as int) =~= l@.skip(p + 1));
            }
            let ta = trim_exec(&a);
            if eq_ignore_ascii_case_exec(&ta, page_title) {
                let ws = words_exec(&b);
                let mut first: Vec<Vec<char>> = Vec::new();
                let mut i: usize = 0;
                while i < ws.len() && i < 4
                    invariant
                        0 <= i <= 4,
                        i <= ws@.len(),
                        first@.map_values(|w: Vec<char>| w@) == ws@.map_values(
                            |w: Vec<char>| w@,
                        ).take(i as int),
                    decreases ws.len() - i,
                {
                    let w = slice_chars(&ws[i], 0, ws[i].len());
                    assert(w@ =~= ws@[i as int]@);
                    let ghost f0 = first@;
                    first.push(w);
                    proof {
                        let wv = ws@.map_values(|w: Vec<char>| w@);
                        assert(first@ =~= f0.push(w));
                        assert(first@.map_values(|w: Vec<char>| w@) =~= f0.map_values(
                            |w: Vec<char>| w@,
                        ).push(w@));
                        assert(wv.take(i + 1) =~= wv.take(i as int).push(wv[i as int]));
                    }
                    i = i + 1;
                }
                proof {
                    let wv = ws@.map_values(|w: Vec<char>| w@);
                    if ws.len() >= 4 {
                        assert(i == 4);
                    } else {
                        assert(wv.take(i as int) =~= wv);
                    }
                }
                assert(first@.map_values(|p: Vec<char>| p@) =~= first_n(words(b@), 4));
                let joined = join_exec(&first, &chars_of(" "));
                assert(joined@ == join(first_n(words(b@), 4), " "@));
                let mut t: Vec<char> = Vec::new();
                extend_chars(&mut t, page_title);
                t.push(' ');
                extend_chars(&mut t, &joined);
                assert(t@ =~= page_title@ + " "@ + joined@) by {
                    assert(" "@ =~= seq![' ']) by {
                        reveal_strlit(" ");
                    }
                }
                let o = DisambigOption { label, title: string_of(&t), description: string_of(&b) };
                o
            } else {
                DisambigOption { label, title: string_of(&ta), description: string_of(&b) }
            }
        },
        None => {
            let tl = trim_exec(l);
            DisambigOption { label, title: string_of(&tl), description: String::new() }
        },
    }
}

/// `is_option_line` computed.
fn is_option_line_exec(l: &[char], page_title: &[char]) -> (b: bool)
    ensures
        b == is_option_line(l@, page_title@),
{
    l.len() > 0 && !eq_chars(l, page_title) && !ends_with_exec(l, &chars_of("may refer to:"))
        && !ends_with_exec(l, &chars_of("may refer to")) && !starts_with_exec(l, &chars_of("#"))
        && !starts_with_exec(l, &chars_of("=="))
}

/// The wikitext option of one line, computed.
fn wikitext_option_exec(raw: &[char], page_title: &[char]) -> (r: Option<DisambigOption>)
    ensures
        match r {
            Some(o) => wikitext_option(raw@, page_title@) == Some(o@),
            None => wikitext_option(raw@, page_title@) is None,
        },
{
    let line = trim_exec(raw);
    if !starts_with_exec(&line, &chars_of("*")) || starts_with_exec(&line, &chars_of("**")) {
        return None;
    }
    let stripped = strip_leading_exec(&line, '*');
    let body = trim_exec(&stripped);
    if starts_with_exec(&body, &chars_of("{{")) || body.len() == 0 {
        return None;
    }
    let i = match first_link_exec(&body) {
        Some(i) => {
            proof {
                crate::markup::lemma_first_link(body@, 0);
            }
            i
        },
        None => {
            return None;
        },
    };
    let (k, _e) = match link_at_exec(&body, i) {
        Some(m) => m,
        None => {
            return None;
        },
    };
    let cap = slice_chars(&body, i + 2, k);
    let target = trim_exec(&cap);
    let plain = strip_markup(&body);
    let label = trim_exec(&plain);
    let description = match split_once_exec(&label, &chars_of(", ")) {
        Some((_a, b)) => b,
        None => Vec::new(),
    };
    if eq_ignore_ascii_case_exec(&target, page_title) {
        return None;
    }
    Some(
        DisambigOption {
            label: string_of(&label),
            title: string_of(&target),
            description: string_of(&description),
        },
    )
}

/// Parse wikitext list items to extract `[[ArticleTitle]]` link targets.
///
/// Handles these wikitext patterns on bullet lines (`*`):
/// - `[[Target]]`                     → title = "Target"
/// - `[[Target|display text]]`        → title = "Target"
/// - `[[Target]], description`        → title = "Target"
///
/// The full line (minus the leading `*`) becomes the label, with `[[...]]`
/// brackets removed so it reads naturally.
pub fn parse_wikitext_disambig(wikitext: &str, page_title: &str) -> (r: Vec<DisambigOption>)
    ensures
        option_views(r@) == wikitext_options(lines(wikitext@), page_title@),
{
    let text = chars_of(wikitext);
    let pt = chars_of(page_title);
    let ls = lines_exec(&text);
    let ghost lv = lines(wikitext@);
    let mut opts: Vec<DisambigOption> = Vec::new();
    let mut i: usize = 0;
    while i < ls.len()
        invariant
            0 <= i <= ls.len(),
            ls@.len() == lv.len(),
            lv == lines(wikitext@),
            pt@ == page_title@,
            forall|k: int| 0 <= k < ls@.len() ==> (#[trigger] ls@[k])@ == lv[k],
            option_views(opts@) == wikitext_options(lv.take(i as int), page_title@),
        decreases ls.len() - i,
    {
        let ghost o0 = opts@;
        assert(lv.take(i + 1).drop_last() =~= lv.take(i as int));
        assert(lv.take(i + 1).last() == lv[i as int]);
        match wikitext_option_exec(&ls[i], &pt) {
            Some(o) => {
                let ghost ov = o;
                opts.push(o);
                assert(opts@ =~= o0.push(ov));
                assert(option_views(opts@) =~= option_views(o0).push(ov@));
            },
            None => {},
        }
        i = i + 1;
    }
    assert(lv.take(ls.len() as int) =~= lv);
    opts
}

impl Article {
    /// Returns true if this is a Wikipedia disambiguation page.
    ///
    /// Detected by either:
    /// - A category containing "disambiguation"
    /// - The title ending with "(disambiguation)"
    /// - The content starting with the canonical disambiguation phrase
    pub fn is_disambiguation(&self) -> (b: bool)
        ensures
            b == is_disambiguation_page(self.title@, self.content@, texts(self.categories@)),
    {
        let mut lowered: Vec<String> = Vec::new();
        let mut i: usize = 0;
        while i < self.categories.len()
            invariant
                0 <= i <= self.categories.len(),
                texts(lowered@) == texts(self.categories@).take(i as int).map_values(
                    |c: Seq<char>| lowercase(c),
                ),
            decreases self.categories.len() - i,
        {
            let ghost l0 = texts(lowered@);
            lowered.push(to_lowercase(self.categories[i].as_str()));
            assert(texts(lowered@) =~= l0.push(lowered@[i as int]@));
            assert(texts(self.categories@).take(i + 1) =~= texts(self.categories@).take(
                i as int,
            ).push(self.categories@[i as int]@));
            assert(texts(lowered@) =~= texts(self.categories@).take(i + 1).map_values(
                |c: Seq<char>| lowercase(c),
            ));
            i = i + 1;
        }
        assert(texts(self.categories@).take(self.categories.len() as int) =~= texts(
            self.categories@,
        ));
        let lt = to_lowercase(self.title.as_str());
        disambiguation_signs(self.title.as_str(), self.content.as_str(), lt.as_str(), &lowered)
    }

    /// Parse disambiguation options from plain-text content.
    ///
    /// Each trimmed content line that is not empty, not the page title, not
    /// the "may refer to" line and not a heading becomes an option; its title
    /// is the part before the first comma or dash, its description the rest
    /// (or, where that part is the page title itself, the title is the page
    /// title and the first four words of the description).
    ///
    /// This is a fallback for when the page's wikitext gives no options.
    pub fn disambiguation_options(&self) -> (r: Vec<DisambigOption>)
        ensures
            option_views(r@) == plain_text_options(self.title@, self.content@),
    {
        let tv = chars_of(self.title.as_str());
        let pt = trim_exec(&tv);
        let content = chars_of(self.content.as_str());
        let ls = lines_exec(&content);
        let ghost lv = lines(self.content@);
        let mut opts: Vec<DisambigOption> = Vec::new();
        let mut i: usize = 0;
        while i < ls.len()
            invariant
                0 <= i <= ls.len(),
                ls@.len() == lv.len(),
                lv == lines(self.content@),
                pt@ == trim(self.title@),
                forall|k: int| 0 <= k < ls@.len() ==> (#[trigger] ls@[k])@ == lv[k],
                option_views(opts@) == options_of_lines(lv.take(i as int), pt@),
            decreases ls.len() - i,
        {
            let ghost o0 = opts@;
            assert(lv.take(i + 1).drop_last() =~= lv.take(i as int));
            assert(lv.take(i + 1).last() == lv[i as int]);
            let l = trim_exec(&ls[i]);
            if is_option_line_exec(&l, &pt) {
                let o = option_of_line_exec(&l, &pt);
                let ghost ov = o;
                opts.push(o);
                assert(opts@ =~= o0.push(ov));
                assert(option_views(opts@) =~= option_views(o0).push(ov@));
            }
            i = i + 1;
        }
        assert(lv.take(ls.len() as int) =~= lv);
        opts
    }
}

} // verus!

verus! {

// ─── Text helpers ────────────────────────────────────────────────────────────

/// Convert `== Section ==` wiki-style headings → `## Section` renderer markers.
///
/// Headings of level 4, 3 and 2 are converted in that order, runs of three
/// or more newlines become one blank line, and the result is trimmed.
pub fn wiki_sections_to_markdown(text: &str) -> (r: String)
    ensures
        r@ == sections_to_markdown(text@),
{
    let v = chars_of(text);
    let m = sections_to_markdown_exec(&v);
    string_of(&m)
}

/// Strip HTML tags and decode entities from a string.
pub fn strip_html(html: &str) -> (r: String)
    ensures
        r@ == strip_html_spec(html@),
{
    let v = chars_of(html);
    let t = strip_tags(&v);
    let d = decode_entities_exec(&t);
    string_of(&d)
}

/// Decode the HTML entities that Wikipedia snippets use.
pub fn decode_entities_str(s: &str) -> (r: String)
    ensures
        r@ == decode_entities(s@),
{
    let v = chars_of(s);
    let d = decode_entities_exec(&v);
    string_of(&d)
}

/// A page title as it appears in a URL: spaces become underscores.
pub open spec fn url_title(title: Seq<char>) -> Seq<char> {
    replace(title, " "@, "_"@)
}

/// A page title as it appears in a URL: spaces become underscores.
pub fn urlencode(title: &str) -> (r: String)
    ensures
        r@ == url_title(title@),
{
    let v = chars_of(title);
    let e = replace_exec(&v, &chars_of(" "), &chars_of("_"));
    string_of(&e)
}

/// The Wikipedia URL of a page.
pub open spec fn article_url_of(lang: Seq<char>, title: Seq<char>) -> Seq<char> {
    "https://"@ + lang + ".wikipedia.org/wiki/"@ + url_title(title)
}

/// Build the Wikipedia URL for a title in a language (no network call).
pub fn article_url(lang: &str, title: &str) -> (r: String)
    ensures
        r@ == article_url_of(lang@, title@),
{
    let mut v: Vec<char> = Vec::new();
    extend_str(&mut v, "https://");
    extend_str(&mut v, lang);
    extend_str(&mut v, ".wikipedia.org/wiki/");
    let t = urlencode(title);
    extend_str(&mut v, t.as_str());
    string_of(&v)
}

// ─── API answers ─────────────────────────────────────────────────────────────

/// One hit of a `list=search` query, as the API sends it.
#[derive(Debug, Clone)]
pub struct SearchItem {
    pub title: String,
    pub snippet: String,
    pub wordcount: u32,
    pub pageid: u64,
}

/// One page of a `prop=extracts` query, as the API sends it (absent fields
/// taken as empty, zero or false).
#[derive(Debug, Clone)]
pub struct ExtractPage {
    pub pageid: u64,
    pub title: String,
    pub extract: String,
    /// The titles of the page's categories, with their `Category:` prefix.
    pub categories: Vec<String>,
    /// The page does not exist.
    pub missing: bool,
}

/// `s` without all leading copies of `p` (`str::trim_start_matches`).
pub open spec fn strip_prefixes(s: Seq<char>, p: Seq<char>) -> Seq<char>
    decreases s.len(),
{
    if p.len() > 0 && starts_with(s, p) {
        strip_prefixes(s.skip(p.len() as int), p)
    } else {
        s
    }
}

/// The position of the first line starting with `#` at or after `i`, or
/// `ls.len()`.
pub open spec fn first_heading_line(ls: Seq<Seq<char>>, i: int) -> int
    decreases ls.len() - i,
{
    if i < 0 || i >= ls.len() {
        ls.len() as int
    } else if starts_with(ls[i], "#"@) {
        i
    } else {
        first_heading_line(ls, i + 1)
    }
}

/// The summary of an article's content: its lines before the first heading,
/// joined, trimmed, and cut to 800 characters.
pub open spec fn summary_of(content: Seq<char>) -> Seq<char> {
    let ls = lines(content);
    let intro = ls.take(first_heading_line(ls, 0));
    first_n(trim(join(intro, "\n"@)), 800)
}

/// The article that a `prop=extracts|categories` answer gives for the
/// requested title, in language `lang`.
pub open spec fn extract_article_ok(lang: Seq<char>, page: ExtractPage, a: Article) -> bool {
    &&& a.title@ == page.title@
    &&& a.content@ == sections_to_markdown(page.extract@)
    &&& a.url@ == article_url_of(lang, page.title@)
    &&& a.lang@ == lang
    &&& a.pageid == page.pageid
    &&& texts(a.categories@) == texts(page.categories@).map_values(
        |c: Seq<char>| strip_prefixes(c, "Category:"@),
    )
    &&& a.summary@ == summary_of(sections_to_markdown(page.extract@))
}

/// The errors that an extracts answer can carry: the API's own error first,
/// then a missing page (none in the answer, or one marked missing).
pub open spec fn extract_error(
    requested: Seq<char>,
    api_error: Option<String>,
    page: Option<ExtractPage>,
    r: WikiError,
) -> bool {
    match api_error {
        Some(info) => r matches WikiError::Api(m) && m@ == info@,
        None => r matches WikiError::NotFound(m) && m@ == requested,
    }
}

/// An extracts answer that yields a page.
pub open spec fn extract_found(api_error: Option<String>, page: Option<ExtractPage>) -> bool {
    &&& api_error is None
    &&& page matches Some(p) && !p.missing
}

pub fn strip_prefixes_exec(v: &[char], p: &[char]) -> (r: Vec<char>)
    ensures
        r@ == strip_prefixes(v@, p@),
{
    if p.len() == 0 {
        return slice_chars(v, 0, v.len());
    }
    let mut i: usize = 0;
    assert(v@.skip(0) =~= v@);
    while crate::text::occurs_at_exec(v, p, i)
        invariant
            0 <= i <= v.len(),
            p@.len() > 0,
            strip_prefixes(v@, p@) == strip_prefixes(v@.skip(i as int), p@),
        decreases v.len() - i,
    {
        proof {
            let rest = v@.skip(i as int);
            assert(rest.subrange(0, p@.len() as int) =~= v@.subrange(i as int, i + p@.len()));
            assert(rest.skip(p@.len() as int) =~= v@.skip(i + p@.len()));
        }
        i = i + p.len();
    }
    proof {
        let rest = v@.skip(i as int);
        if p@.len() <= rest.len() {
            assert(rest.subrange(0, p@.len() as int) =~= v@.subrange(i as int, i + p@.len()));
        }
    }
    slice_chars(v, i, v.len())
}

/// The summary of an article's content.
pub fn summary_of_exec(content: &[char]) -> (r: Vec<char>)
    ensures
        r@ == summary_of(content@),
{
    let ls = lines_exec(content);
    let ghost lv = lines(content@);
    let hash = chars_of("#");
    let mut intro: Vec<Vec<char>> = Vec::new();
    let mut i: usize = 0;
    while i < ls.len() && !starts_with_exec(&ls[i], &hash)
        invariant
            0 <= i <= ls.len(),
            ls@.len() == lv.len(),
            hash@ == "#"@,
            forall|k: int| 0 <= k < ls@.len() ==> (#[trigger] ls@[k])@ == lv[k],
            first_heading_line(lv, 0) == first_heading_line(lv, i as int),
            intro@.map_values(|p: Vec<char>| p@) == lv.take(i as int),
        decreases ls.len() - i,
    {
        let line = slice_chars(&ls[i], 0, ls[i].len());
        assert(line@ =~= lv[i as int]);
        let ghost i0 = intro@;
        intro.push(line);
        assert(intro@.map_values(|p: Vec<char>| p@) =~= i0.map_values(|p: Vec<char>| p@).push(
            lv[i as int],
        ));
        assert(lv.take(i + 1) =~= lv.take(i as int).push(lv[i as int]));
        i = i + 1;
    }
    let joined = join_exec(&intro, &chars_of("\n"));
    let t = trim_exec(&joined);
    if t.len() <= 800 {
        t
    } else {
        let r = slice_chars(&t, 0, 800);
        assert(r@ =~= t@.take(800));
        r
    }
}

/// The article that a `prop=extracts|categories` query answered for
/// `requested`: the API's error, or `NotFound(requested)` where the answer
/// has no page or the page is missing; otherwise the page with its extract
/// turned into Markdown-style content, its summary, its URL in `lang` and
/// its categories without the `Category:` prefix.
pub fn article_from_extract(
    lang: &str,
    requested: &str,
    api_error: Option<String>,
    page: Option<ExtractPage>,
) -> (r: Result<Article, WikiError>)
    ensures
        match r {
            Ok(a) => extract_found(api_error, page) && extract_article_ok(lang@, page->0, a),
            Err(e) => !extract_found(api_error, page) && extract_error(
                requested@,
                api_error,
                page,
                e,
            ),
        },
{
    if let Some(info) = api_error {
        return Err(WikiError::Api(info));
    }
    let page = match page {
        Some(p) => p,
        None => {
            return Err(WikiError::NotFound(crate::text::owned(requested)));
        },
    };
    if page.missing {
        return Err(WikiError::NotFound(crate::text::owned(requested)));
    }
    let prefix = chars_of("Category:");
    let mut categories: Vec<String> = Vec::new();
    let mut i: usize = 0;
    while i < page.categories.len()
        invariant
            0 <= i <= page.categories.len(),
            prefix@ == "Category:"@,
            texts(categories@) == texts(page.categories@.take(i as int)).map_values(
                |c: Seq<char>| strip_prefixes(c, "Category:"@),
            ),
        decreases page.categories.len() - i,
    {
        let c = chars_of(page.categories[i].as_str());
        let stripped = strip_prefixes_exec(&c, &prefix);
        let ghost c0 = categories@;
        categories.push(string_of(&stripped));
        assert(texts(page.categories@.take(i + 1)) =~= texts(page.categories@.take(i as int)).push(
            page.categories@[i as int]@,
        ));
        assert(texts(categories@) =~= texts(c0).push(stripped@));
        i = i + 1;
    }
    assert(page.categories@.take(page.categories.len() as int) =~= page.categories@);
    let url = article_url(lang, page.title.as_str());
    let extract = chars_of(page.extract.as_str());
    let content = sections_to_markdown_exec(&extract);
    let summary = summary_of_exec(&content);
    Ok(
        Article {
            title: page.title,
            content: string_of(&content),
            url,
            lang: crate::text::owned(lang),
            pageid: page.pageid,
            categories,
            summary: string_of(&summary),
        },
    )
}

/// The summary article that a `prop=extracts&exintro` query answered for
/// `requested`: errors as for [`article_from_extract`]; otherwise the
/// trimmed extract as both summary and content, no categories.
pub fn summary_from_extract(
    lang: &str,
    requested: &str,
    api_error: Option<String>,
    page: Option<ExtractPage>,
) -> (r: Result<Article, WikiError>)
    ensures
        match r {
            Ok(a) => extract_found(api_error, page) && a.title@ == page->0.title@ && a.summary@
                == trim(page->0.extract@) && a.content@ == trim(page->0.extract@) && a.url@
                == article_url_of(lang@, page->0.title@) && a.lang@ == lang@ && a.pageid
                == page->0.pageid && a.categories@.len() == 0,
            Err(e) => !extract_found(api_error, page) && extract_error(
                requested@,
                api_error,
                page,
                e,
            ),
        },
{
    if let Some(info) = api_error {
        return Err(WikiError::Api(info));
    }
    let page = match page {
        Some(p) => p,
        None => {
            return Err(WikiError::NotFound(crate::text::owned(requested)));
        },
    };
    if page.missing {
        return Err(WikiError::NotFound(crate::text::owned(requested)));
    }
    let url = article_url(lang, page.title.as_str());
    let extract = chars_of(page.extract.as_str());
    let summary = trim_exec(&extract);
    Ok(
        Article {
            title: page.title,
            summary: string_of(&summary),
            content: string_of(&summary),
            url,
            lang: crate::text::owned(lang),
            pageid: page.pageid,
            categories: Vec::new(),
        },
    )
}

/// The title of the page with id `pageid`, from the first page of a
/// `pageids` query, or `NotFound` with the id in decimal.
pub fn title_for_id(pageid: u64, first_title: Option<String>) -> (r: Result<String, WikiError>)
    ensures
        match first_title {
            Some(t) => r == Ok::<String, WikiError>(t),
            None => r matches Err(WikiError::NotFound(m)) && m@ == crate::text::decimal(
                pageid as nat,
            ),
        },
{
    match first_title {
        Some(t) => Ok(t),
        None => {
            let d = crate::text::decimal_exec(pageid);
            Err(WikiError::NotFound(string_of(&d)))
        },
    }
}

/// The search results of a `list=search` answer: the API's error, or up to
/// `limit` hits, the first ones (none where the answer has no query part),
/// with their snippets' HTML stripped.
pub fn search_results(
    api_error: Option<String>,
    items: Option<Vec<SearchItem>>,
    limit: u8,
) -> (r: Result<Vec<SearchResult>, WikiError>)
    ensures
        match api_error {
            Some(info) => r matches Err(WikiError::Api(m)) && m@ == info@,
            None => r matches Ok(rs) && match items {
                None => rs@.len() == 0,
                Some(its) => rs@.len() == (if its@.len() < limit { its@.len() } else {
                    limit as nat
                }) && forall|i: int|
                    0 <= i < rs@.len() ==> {
                        &&& (#[trigger] rs@[i]).title@ == its@[i].title@
                        &&& rs@[i].snippet@ == strip_html_spec(its@[i].snippet@)
                        &&& rs@[i].wordcount == its@[i].wordcount
                        &&& rs@[i].pageid == its@[i].pageid
                    },
            },
        },
{
    if let Some(info) = api_error {
        return Err(WikiError::Api(info));
    }
    let items = match items {
        Some(its) => its,
        None => {
            return Ok(Vec::new());
        },
    };
    let n: usize = if items.len() < limit as usize {
        items.len()
    } else {
        limit as usize
    };
    let mut rs: Vec<SearchResult> = Vec::new();
    let mut i: usize = 0;
    while i < n
        invariant
            0 <= i <= n,
            n <= items.len(),
            rs@.len() == i,
            forall|j: int|
                0 <= j < i ==> {
                    &&& (#[trigger] rs@[j]).title@ == items@[j].title@
                    &&& rs@[j].snippet@ == strip_html_spec(items@[j].snippet@)
                    &&& rs@[j].wordcount == items@[j].wordcount
                    &&& rs@[j].pageid == items@[j].pageid
                },
        decreases n - i,
    {
        let it = &items[i];
        rs.push(
            SearchResult {
                title: it.title.clone(),
                snippet: strip_html(it.snippet.as_str()),
                wordcount: it.wordcount,
                pageid: it.pageid,
            },
        );
        i = i + 1;
    }
    Ok(rs)
}

/// The wikitext of a `prop=revisions` answer, given for each page the
/// main-slot contents of its revisions: that of the first revision of the
/// first page, or nothing where the answer has no page or no revision.
pub fn wikitext_from(pages: Option<Vec<Vec<String>>>) -> (r: String)
    ensures
        r@ == match pages {
            Some(ps) => if ps@.len() > 0 && ps@[0]@.len() > 0 {
                ps@[0]@[0]@
            } else {
                Seq::empty()
            },
            None => Seq::empty(),
        },
{
    match pages {
        Some(ps) => {
            if ps.len() > 0 && ps[0].len() > 0 {
                owned(ps[0][0].as_str())
            } else {
                String::new()
            }
        },
        None => String::new(),
    }
}

/// The options of a disambiguation page: those its wikitext gives, or,
/// where it gives none, those read from the article's plain text.
pub fn disambiguation_choices(article: &Article, wikitext: &str) -> (r: Vec<DisambigOption>)
    ensures
        option_views(r@) == if wikitext_options(lines(wikitext@), article.title@).len() > 0 {
            wikitext_options(lines(wikitext@), article.title@)
        } else {
            plain_text_options(article.title@, article.content@)
        },
{
    let opts = parse_wikitext_disambig(wikitext, article.title.as_str());
    if opts.len() == 0 {
        article.disambiguation_options()
    } else {
        opts
    }
}

// ─── Requests ────────────────────────────────────────────────────────────────

/// Query parameters as `(name, value)` pairs of plain text.
pub open spec fn params_view(ps: Seq<(String, String)>) -> Seq<(Seq<char>, Seq<char>)> {
    ps.map_values(|p: (String, String)| (p.0@, p.1@))
}

/// The parameters of a `list=search` query for `query`, at most `limit` hits.
pub open spec fn search_params_of(query: Seq<char>, limit: u8) -> Seq<(Seq<char>, Seq<char>)> {
    seq![
        ("action"@, "query"@),
        ("list"@, "search"@),
        ("srsearch"@, query),
        ("srlimit"@, crate::text::decimal(limit as nat)),
        ("srprop"@, "snippet|wordcount"@),
        ("format"@, "json"@),
        ("formatversion"@, "2"@),
        ("utf8"@, "1"@),
    ]
}

/// The parameters of the query for a full article: its plain-text extract
/// with `== H ==` headings, and up to 50 categories, following redirects.
pub open spec fn article_params_of(title: Seq<char>) -> Seq<(Seq<char>, Seq<char>)> {
    seq![
        ("action"@, "query"@),
        ("titles"@, title),
        ("prop"@, "extracts|categories"@),
        ("explaintext"@, "1"@),
        ("exsectionformat"@, "wiki"@),
        ("cllimit"@, "50"@),
        ("format"@, "json"@),
        ("formatversion"@, "2"@),
        ("utf8"@, "1"@),
        ("redirects"@, "1"@),
    ]
}

/// The parameters of the query for an article's introduction.
pub open spec fn summary_params_of(title: Seq<char>) -> Seq<(Seq<char>, Seq<char>)> {
    seq![
        ("action"@, "query"@),
        ("titles"@, title),
        ("prop"@, "extracts"@),
        ("exintro"@, "1"@),
        ("explaintext"@, "1"@),
        ("format"@, "json"@),
        ("formatversion"@, "2"@),
        ("utf8"@, "1"@),
        ("redirects"@, "1"@),
    ]
}

/// The parameters of the query for the title of page `pageid`.
pub open spec fn id_params_of(pageid: u64) -> Seq<(Seq<char>, Seq<char>)> {
    seq![
        ("action"@, "query"@),
        ("pageids"@, crate::text::decimal(pageid as nat)),
        ("format"@, "json"@),
        ("formatversion"@, "2"@),
    ]
}

/// The parameters of the query for a page's wikitext (main slot of its
/// latest revision).
pub open spec fn wikitext_params_of(title: Seq<char>) -> Seq<(Seq<char>, Seq<char>)> {
    seq![
        ("action"@, "query"@),
        ("titles"@, title),
        ("prop"@, "revisions"@),
        ("rvprop"@, "content"@),
        ("rvslots"@, "main"@),
        ("format"@, "json"@),
        ("formatversion"@, "2"@),
        ("redirects"@, "1"@),
    ]
}

/// Append the parameter `name=value`.
fn param(ps: &mut Vec<(String, String)>, name: &str, value: &str)
    ensures
        params_view(final(ps)@) == params_view(old(ps)@).push((name@, value@)),
{
    let ghost before = ps@;
    ps.push((owned(name), owned(value)));
    assert(params_view(ps@) =~= params_view(before).push((name@, value@)));
}

/// The parameters of a search for `query`, at most `limit` results.
pub fn search_params(query: &str, limit: u8) -> (r: Vec<(String, String)>)
    ensures
        params_view(r@) == search_params_of(query@, limit),
{
    let lim = string_of(&crate::text::decimal_exec(limit as u64));
    let mut ps: Vec<(String, String)> = Vec::new();
    assert(params_view(ps@) =~= Seq::empty());
    param(&mut ps, "action", "query");
    param(&mut ps, "list", "search");
    param(&mut ps, "srsearch", query);
    param(&mut ps, "srlimit", lim.as_str());
    param(&mut ps, "srprop", "snippet|wordcount");
    param(&mut ps, "format", "json");
    param(&mut ps, "formatversion", "2");
    param(&mut ps, "utf8", "1");
    assert(params_view(ps@) =~= search_params_of(query@, limit));
    ps
}

/// The parameters of the query for the full article `title`.
pub fn article_params(title: &str) -> (r: Vec<(String, String)>)
    ensures
        params_view(r@) == article_params_of(title@),
{
    let mut ps: Vec<(String, String)> = Vec::new();
    assert(params_view(ps@) =~= Seq::empty());
    param(&mut ps, "action", "query");
    param(&mut ps, "titles", title);
    param(&mut ps, "prop", "extracts|categories");
    param(&mut ps, "explaintext", "1");
    param(&mut ps, "exsectionformat", "wiki");
    param(&mut ps, "cllimit", "50");
    param(&mut ps, "format", "json");
    param(&mut ps, "formatversion", "2");
    param(&mut ps, "utf8", "1");
    param(&mut ps, "redirects", "1");
    assert(params_view(ps@) =~= article_params_of(title@));
    ps
}

/// The parameters of the query for the introduction of `title`.
pub fn summary_params(title: &str) -> (r: Vec<(String, String)>)
    ensures
        params_view(r@) == summary_params_of(title@),
{
    let mut ps: Vec<(String, String)> = Vec::new();
    assert(params_view(ps@) =~= Seq::empty());
    param(&mut ps, "action", "query");
    param(&mut ps, "titles", title);
    param(&mut ps, "prop", "extracts");
    param(&mut ps, "exintro", "1");
    param(&mut ps, "explaintext", "1");
    param(&mut ps, "format", "json");
    param(&mut ps, "formatversion", "2");
    param(&mut ps, "utf8", "1");
    param(&mut ps, "redirects", "1");
    assert(params_view(ps@) =~= summary_params_of(title@));
    ps
}

/// The parameters of the query for the title of page `pageid`.
pub fn id_params(pageid: u64) -> (r: Vec<(String, String)>)
    ensures
        params_view(r@) == id_params_of(pageid),
{
    let id = string_of(&crate::text::decimal_exec(pageid));
    let mut ps: Vec<(String, String)> = Vec::new();
    assert(params_view(ps@) =~= Seq::empty());
    param(&mut ps, "action", "query");
    param(&mut ps, "pageids", id.as_str());
    param(&mut ps, "format", "json");
    param(&mut ps, "formatversion", "2");
    assert(params_view(ps@) =~= id_params_of(pageid));
    ps
}

/// The parameters of the query for the wikitext of `title`.
pub fn wikitext_params(title: &str) -> (r: Vec<(String, String)>)
    ensures
        params_view(r@) == wikitext_params_of(title@),
{
    let mut ps: Vec<(String, String)> = Vec::new();
    assert(params_view(ps@) =~= Seq::empty());
    param(&mut ps, "action", "query");
    param(&mut ps, "titles", title);
    param(&mut ps, "prop", "revisions");
    param(&mut ps, "rvprop", "content");
    param(&mut ps, "rvslots", "main");
    param(&mut ps, "format", "json");
    param(&mut ps, "formatversion", "2");
    param(&mut ps, "redirects", "1");
    assert(params_view(ps@) =~= wikitext_params_of(title@));
    ps
}

} // verus!

verus! {

// ─── Laws ────────────────────────────────────────────────────────────────────

/// No option read from wikitext leads back to the disambiguation page
/// itself: every option's title differs from the page title, ASCII case
/// ignored.
pub proof fn law_wikitext_options_skip_self_links(ls: Seq<Seq<char>>, page_title: Seq<char>)
    ensures
        forall|i: int|
            0 <= i < wikitext_options(ls, page_title).len() ==> !eq_ignore_ascii_case(
                (#[trigger] wikitext_options(ls, page_title)[i]).1,
                page_title,
            ),
    decreases ls.len(),
{
    if ls.len() > 0 {
        law_wikitext_options_skip_self_links(ls.drop_last(), page_title);
        let rest = wikitext_options(ls.drop_last(), page_title);
        let all = wikitext_options(ls, page_title);
        assert forall|i: int| 0 <= i < all.len() implies !eq_ignore_ascii_case(
            (#[trigger] all[i]).1,
            page_title,
        ) by {
            if i < rest.len() {
                assert(all[i] == rest[i]);
            }
        }
    }
}

/// Every option read from plain text comes from a line that is not empty,
/// not the page title, and not a heading or "may refer to" line; the label
/// is that line.
pub proof fn law_plain_text_options_are_option_lines(ls: Seq<Seq<char>>, page_title: Seq<char>)
    ensures
        forall|i: int|
            0 <= i < options_of_lines(ls, page_title).len() ==> is_option_line(
                (#[trigger] options_of_lines(ls, page_title)[i]).0,
                page_title,
            ),
    decreases ls.len(),
{
    if ls.len() > 0 {
        law_plain_text_options_are_option_lines(ls.drop_last(), page_title);
        let l = trim(ls.last());
        let rest = options_of_lines(ls.drop_last(), page_title);
        let all = options_of_lines(ls, page_title);
        assert forall|i: int| 0 <= i < all.len() implies is_option_line(
            (#[trigger] all[i]).0,
            page_title,
        ) by {
            if i < rest.len() {
                assert(all[i] == rest[i]);
            } else {
                assert(option_of_line(l, page_title).0 == l);
            }
        }
    }
}

/// A page title in a URL holds no space: each one becomes `_`.
pub proof fn law_url_title_has_no_space(title: Seq<char>)
    ensures
        !crate::text::has_char(url_title(title), ' '),
    decreases title.len(),
{
    reveal_strlit(" ");
    reveal_strlit("_");
    let sp = " "@;
    let us = "_"@;
    if title.len() >= 1 {
        if title.subrange(0, 1) == sp {
            law_url_title_has_no_space(title.skip(1));
            let r = url_title(title.skip(1));
            assert(url_title(title) == us + r);
            assert forall|i: int| 0 <= i < (us + r).len() implies (us + r)[i] != ' ' by {
                if i > 0 {
                    assert((us + r)[i] == r[i - 1]);
                }
            }
        } else {
            law_url_title_has_no_space(title.drop_first());
            let r = url_title(title.drop_first());
            assert(title[0] != ' ') by {
                if title[0] == ' ' {
                    assert(title.subrange(0, 1) =~= sp);
                }
            }
            assert(url_title(title) == seq![title[0]] + r);
            assert forall|i: int| 0 <= i < (seq![title[0]] + r).len() implies (seq![title[0]]
                + r)[i] != ' ' by {
                if i > 0 {
                    assert((seq![title[0]] + r)[i] == r[i - 1]);
                }
            }
        }
    }
}

/// The categories of a fetched article never start with `Category:`: the
/// prefix is removed as often as it occurs.
pub proof fn law_category_prefix_removed(name: Seq<char>)
    ensures
        !starts_with(strip_prefixes(name, "Category:"@), "Category:"@),
    decreases name.len(),
{
    reveal_strlit("Category:");
    if starts_with(name, "Category:"@) {
        law_category_prefix_removed(name.skip(9));
    }
}

/// The target of the link that starts at position `i` of `body`.
pub open spec fn link_target(body: Seq<char>, i: int) -> Seq<char> {
    match link_at(body, i) {
        Some((k, e)) => body.subrange(i + 2, k),
        None => Seq::empty(),
    }
}

/// The option of a wikitext bullet line takes its title from the leftmost
/// link of the bullet's body: a link starts there, none starts before it,
/// and the title is that link's target, trimmed.
pub proof fn law_wikitext_title_is_first_link(raw: Seq<char>, page_title: Seq<char>)
    ensures
        wikitext_option(raw, page_title) matches Some(o) ==> {
            let body = trim(strip_leading(trim(raw), '*'));
            exists|i: int|
                #[trigger] link_at(body, i) is Some && (forall|j: int|
                    0 <= j < i ==> link_at(body, j) is None) && o.1 == trim(link_target(body, i))
        },
{
    let body = trim(strip_leading(trim(raw), '*'));
    crate::markup::law_first_link_is_leftmost(body);
    if wikitext_option(raw, page_title) is Some {
        let i = first_link(body, 0)->0;
        assert(link_at(body, i) is Some);
    }
}

/// Where the `h`-th line of an article's content is the first that starts
/// with `#`, the summary is the trimmed join of all lines before it (blank
/// lines included), cut to 800 characters.
pub proof fn law_summary_is_intro(content: Seq<char>, h: int)
    requires
        0 <= h <= lines(content).len(),
        forall|j: int| 0 <= j < h ==> !starts_with(#[trigger] lines(content)[j], "#"@),
        h < lines(content).len() ==> starts_with(lines(content)[h], "#"@),
    ensures
        summary_of(content) == first_n(trim(join(lines(content).take(h), "\n"@)), 800),
{
    lemma_first_heading_line(lines(content), 0, h);
}

proof fn lemma_first_heading_line(ls: Seq<Seq<char>>, i: int, h: int)
    requires
        0 <= i <= h <= ls.len(),
        forall|j: int| 0 <= j < h ==> !starts_with(#[trigger] ls[j], "#"@),
        h < ls.len() ==> starts_with(ls[h], "#"@),
    ensures
        first_heading_line(ls, i) == h,
    decreases h - i,
{
    if i < h {
        lemma_first_heading_line(ls, i + 1, h);
    }
}

/// The signs of a disambiguation page, each enough on its own: a category
/// that contains "disambiguation" once lower-cased, a lower-cased title that
/// ends with "(disambiguation)", or content that (leading whitespace
/// removed) starts with the title and contains "may refer to" anywhere.
/// A page that shows none of them is no disambiguation page.
pub proof fn law_disambiguation_signs(
    title: Seq<char>,
    content: Seq<char>,
    categories: Seq<Seq<char>>,
)
    ensures
        starts_with(trim_start(content), title) && contains(content, "may refer to"@)
            ==> is_disambiguation_page(title, content, categories),
        ends_with(lowercase(title), "(disambiguation)"@) ==> is_disambiguation_page(
            title,
            content,
            categories,
        ),
        forall|i: int|
            0 <= i < categories.len() && contains(lowercase(#[trigger] categories[i]), "disambiguation"@)
                ==> is_disambiguation_page(title, content, categories),
        is_disambiguation_page(title, content, categories) ==> {
            ||| starts_with(trim_start(content), title) && contains(content, "may refer to"@)
            ||| ends_with(lowercase(title), "(disambiguation)"@)
            ||| exists|i: int|
                0 <= i < categories.len() && contains(
                    lowercase(#[trigger] categories[i]),
                    "disambiguation"@,
                )
        },
{
    let lc = categories.map_values(|c: Seq<char>| lowercase(c));
    assert forall|i: int|
        0 <= i < categories.len() && contains(lowercase(#[trigger] categories[i]), "disambiguation"@)
            implies is_disambiguation_page(title, content, categories) by {
        assert(lc[i] == lowercase(categories[i]));
    }
    if is_disambiguation_page(title, content, categories) {
        if exists|i: int| 0 <= i < lc.len() && contains(#[trigger] lc[i], "disambiguation"@) {
            let i = choose|i: int| 0 <= i < lc.len() && contains(#[trigger] lc[i], "disambiguation"@);
            assert(lc[i] == lowercase(categories[i]));
        }
    }
}

/// An article's summary is at most 800 characters long.
pub proof fn law_summary_at_most_800(content: Seq<char>)
    ensures
        summary_of(content).len() <= 800,
{
}

} // verus!
