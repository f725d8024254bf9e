//! Terminal renderer for Wikipedia articles.
//!
//! Output is laid out as a sequence of [`Piece`]s — plain text, or text in a
//! [`Role`] that the theme colors — and then shown: each styled piece goes
//! through `colored`, and the results are concatenated. Word-wrapping is
//! done by `textwrap`.

use vstd::prelude::*;

use crate::client::{texts, Article, SearchResult};
use crate::text::{
    chars_of, decimal, decimal_exec, extend_chars, extend_str, first_n, join, join_exec, lines,
    lines_exec, owned, repeat, repeat_exec, replace, replace_exec, starts_with, starts_with_exec,
    string_of, trim, trim_end, trim_end_exec, trim_exec, concat, eq_chars, contains, has_char,
    occurs_at,
};
use crate::client::{strip_prefixes, strip_prefixes_exec};
use crate::theme::{
    builtin_palette, dark_palette, dracula_palette, light_palette, nord_palette, solarized_palette, hex_color, hex_is_ok, hex_ok, role_field, role_paint, show, shows, utf8_len, utf8_len_capped, Role,
    Theme,
};

verus! {

// ─── Pieces of output ────────────────────────────────────────────────────────

/// A piece of output: plain text, or text shown in a role of the theme.
#[derive(Debug, Clone)]
pub enum Piece {
    Text(String),
    Styled(Role, String),
}

/// A piece of output as plain values.
pub enum PieceView {
    Text(Seq<char>),
    Styled(Role, Seq<char>),
}

impl View for Piece {
    type V = PieceView;

    open spec fn view(&self) -> PieceView {
        match self {
            Piece::Text(t) => PieceView::Text(t@),
            Piece::Styled(r, t) => PieceView::Styled(*r, t@),
        }
    }
}

/// The views of a list of pieces.
pub open spec fn views(ps: Seq<Piece>) -> Seq<PieceView> {
    ps.map_values(|p: Piece| p@)
}

/// `out` is a way piece `p` can look with the colors of `palette`.
pub open spec fn piece_shows(palette: Seq<Seq<char>>, p: PieceView, out: Seq<char>) -> bool {
    match p {
        PieceView::Text(t) => out == t,
        PieceView::Styled(r, t) => shows(role_paint(palette, r, t), out),
    }
}

/// `out` is a way the pieces `ps` can look with the colors of `palette`:
/// one showing of each piece, concatenated.
pub open spec fn renders(palette: Seq<Seq<char>>, ps: Seq<PieceView>, out: Seq<char>) -> bool {
    exists|parts: Seq<Seq<char>>|
        parts.len() == ps.len() && (forall|i: int|
            0 <= i < ps.len() ==> piece_shows(palette, ps[i], #[trigger] parts[i])) && out
            == concat(parts)
}

/// Every role that `ps` uses has a color on which the hex check returns.
pub open spec fn colors_ok(palette: Seq<Seq<char>>, ps: Seq<PieceView>) -> bool {
    forall|i: int|
        0 <= i < ps.len() ==> (#[trigger] ps[i] matches PieceView::Styled(r, _) ==> hex_ok(
            palette[role_field(r)],
        ))
}

/// The color string that role `r` takes from `theme`.
fn role_color(theme: &Theme, r: Role) -> (c: &String)
    ensures
        c@ == theme@[role_field(r)],
{
    match r {
        Role::Title => &theme.title,
        Role::Heading => &theme.heading,
        Role::Subheading => &theme.subheading,
        Role::Body => &theme.body,
        Role::Link => &theme.link,
        Role::BoldText => &theme.bold,
        Role::ItalicText => &theme.italic,
        Role::ResultTitle => &theme.result_title,
        Role::ResultSnippet => &theme.result_snippet,
        Role::ResultIndex => &theme.result_index,
        Role::Separator => &theme.separator,
        Role::Error => &theme.error,
        Role::Success => &theme.success,
        Role::Dim => &theme.dim,
    }
}

/// Whether every role that `ps` uses has a color that the hex check accepts
/// (showing `ps` with `theme` does not panic).
pub fn can_render(theme: &Theme, ps: &Vec<Piece>) -> (b: bool)
    ensures
        b == colors_ok(theme@, views(ps@)),
{
    let mut i: usize = 0;
    while i < ps.len()
        invariant
            0 <= i <= ps.len(),
            forall|j: int|
                0 <= j < i ==> (#[trigger] views(ps@)[j] matches PieceView::Styled(r, _)
                    ==> hex_ok(theme@[role_field(r)])),
        decreases ps.len() - i,
    {
        assert(views(ps@)[i as int] == ps@[i as int]@);
        match &ps[i] {
            Piece::Text(_) => {},
            Piece::Styled(r, _) => {
                if !hex_is_ok(role_color(theme, *r).as_str()) {
                    return false;
                }
            },
        }
        i = i + 1;
    }
    true
}

/// Shows the pieces `ps` with the colors of `theme`.
pub fn render(theme: &Theme, ps: &Vec<Piece>) -> (out: String)
    requires
        colors_ok(theme@, views(ps@)),
    ensures
        renders(theme@, views(ps@), out@),
{
    let ghost vs = views(ps@);
    let mut v: Vec<char> = Vec::new();
    let ghost mut parts: Seq<Seq<char>> = Seq::empty();
    let mut i: usize = 0;
    while i < ps.len()
        invariant
            0 <= i <= ps.len(),
            vs == views(ps@),
            colors_ok(theme@, vs),
            parts.len() == i,
            forall|j: int| 0 <= j < i ==> piece_shows(theme@, vs[j], #[trigger] parts[j]),
            v@ == concat(parts),
        decreases ps.len() - i,
    {
        assert(vs[i as int] == ps@[i as int]@);
        let ghost p0 = parts;
        match &ps[i] {
            Piece::Text(t) => {
                extend_str(&mut v, t.as_str());
                proof {
                    parts = parts.push(t@);
                }
            },
            Piece::Styled(r, t) => {
                let p = theme.paint(*r, t.as_str());
                let s = show(&p);
                extend_str(&mut v, s.as_str());
                proof {
                    parts = parts.push(s@);
                }
            },
        }
        assert(parts.drop_last() =~= p0);
        i = i + 1;
    }
    string_of(&v)
}

/// Appends a piece.
fn put(ps: &mut Vec<Piece>, p: Piece)
    ensures
        views(final(ps)@) == views(old(ps)@).push(p@),
{
    let ghost p0 = ps@;
    ps.push(p);
    assert(views(ps@) =~= views(p0).push(p@));
}

/// Appends plain text.
fn put_text(ps: &mut Vec<Piece>, t: &[char])
    ensures
        views(final(ps)@) == views(old(ps)@).push(PieceView::Text(t@)),
{
    put(ps, Piece::Text(string_of(t)));
}

/// Appends a line break.
fn put_nl(ps: &mut Vec<Piece>)
    ensures
        views(final(ps)@) == views(old(ps)@).push(nl()),
{
    put(ps, Piece::Text(owned("\n")));
}

/// Appends text in a role.
fn put_styled(ps: &mut Vec<Piece>, r: Role, t: &[char])
    ensures
        views(final(ps)@) == views(old(ps)@).push(PieceView::Styled(r, t@)),
{
    put(ps, Piece::Styled(r, string_of(t)));
}

/// `a` followed by `b`.
fn cat(a: &[char], b: &str) -> (r: Vec<char>)
    ensures
        r@ == a@ + b@,
{
    let mut r = crate::text::slice_chars(a, 0, a.len());
    assert(r@ =~= a@);
    extend_str(&mut r, b);
    r
}

/// `a` followed by `b`.
fn cat2(a: &[char], b: &[char]) -> (r: Vec<char>)
    ensures
        r@ == a@ + b@,
{
    let mut r = crate::text::slice_chars(a, 0, a.len());
    assert(r@ =~= a@);
    extend_chars(&mut r, b);
    r
}

// ─── Layout specifications ───────────────────────────────────────────────────

/// A renderer as plain values.
pub struct RendererView {
    pub theme: Seq<Seq<char>>,
    pub width: u16,
    pub emoji: bool,
}

/// A line break.
pub open spec fn nl() -> PieceView {
    PieceView::Text("\n"@)
}

/// `icon` where emoji are on, else nothing.
pub open spec fn emoji(rv: RendererView, icon: Seq<char>) -> Seq<char> {
    if rv.emoji {
        icon
    } else {
        Seq::empty()
    }
}

/// A horizontal rule as wide as the output, at most 80 columns.
pub open spec fn sep_line(rv: RendererView) -> Seq<char> {
    repeat(
        "─"@,
        if rv.width < 80 {
            rv.width as nat
        } else {
            80
        },
    )
}

/// The width left for text after an indent of `indent`'s byte length.
pub open spec fn wrap_width(width: nat, indent: Seq<char>) -> nat {
    if utf8_len(indent) >= width {
        0
    } else {
        (width - utf8_len(indent)) as nat
    }
}

/// The lines `textwrap::wrap` makes of `text` with the given width and with
/// `indent` before every line.
pub uninterp spec fn wrapped_lines(text: Seq<char>, width: nat, indent: Seq<char>) -> Seq<
    Seq<char>,
>;

/// `text` wrapped to the renderer's width, with `indent` before each line.
pub open spec fn wrapped(rv: RendererView, text: Seq<char>, indent: Seq<char>) -> Seq<Seq<char>> {
    wrapped_lines(text, wrap_width(rv.width as nat, indent), indent)
}

/// Each of `ls` in role `r`, on a line of its own.
pub open spec fn role_lines(ls: Seq<Seq<char>>, r: Role) -> Seq<PieceView>
    decreases ls.len(),
{
    if ls.len() == 0 {
        Seq::empty()
    } else {
        role_lines(ls.drop_last(), r) + seq![PieceView::Styled(r, ls.last()), nl()]
    }
}

/// One line of article content (trailing whitespace already removed):
/// `####`, `###`, `##`, `#` headings, `  •` bullets, blank lines and
/// wrapped paragraphs.
pub open spec fn body_line(rv: RendererView, t: Seq<char>) -> Seq<PieceView> {
    if starts_with(t, "#### "@) {
        seq![PieceView::Styled(Role::ItalicText, "  "@ + t.skip(5)), nl()]
    } else if starts_with(t, "### "@) {
        seq![
            PieceView::Text("  "@ + emoji(rv, "🔹"@)),
            PieceView::Styled(Role::Subheading, " "@ + t.skip(4)),
            nl(),
        ]
    } else if starts_with(t, "## "@) {
        let rest = t.skip(3);
        seq![
            nl(),
            PieceView::Text(emoji(rv, "📌"@)),
            PieceView::Styled(Role::Heading, " "@ + rest),
            nl(),
            PieceView::Styled(Role::Separator, repeat("─"@, rest.len() + 2)),
            nl(),
        ]
    } else if starts_with(t, "# "@) {
        seq![nl(), PieceView::Styled(Role::Title, t.skip(2)), nl()]
    } else if starts_with(t, "  •"@) {
        role_lines(wrapped(rv, trim(strip_prefixes(t, "  •"@)), "  • "@), Role::Body)
    } else if t.len() == 0 {
        seq![nl()]
    } else {
        role_lines(wrapped(rv, t, Seq::empty()), Role::Body)
    }
}

/// The lines `ls` of article content, each laid out by `body_line`.
pub open spec fn body_lines(rv: RendererView, ls: Seq<Seq<char>>) -> Seq<PieceView>
    decreases ls.len(),
{
    if ls.len() == 0 {
        Seq::empty()
    } else {
        body_lines(rv, ls.drop_last()) + body_line(rv, trim_end(ls.last()))
    }
}

/// A category as listed under an article: `  [name]`.
pub open spec fn category_tag(c: Seq<char>) -> Seq<char> {
    "  ["@ + c + "]"@
}

/// The layout of a full article.
pub open spec fn article_layout(
    rv: RendererView,
    title: Seq<char>,
    url: Seq<char>,
    content: Seq<char>,
    categories: Seq<Seq<char>>,
) -> Seq<PieceView> {
    let head = seq![
        nl(),
        PieceView::Styled(Role::Title, emoji(rv, "📖"@) + " "@ + title),
        nl(),
        PieceView::Styled(Role::Separator, sep_line(rv)),
        nl(),
        PieceView::Styled(Role::Link, emoji(rv, "🔗"@) + " "@ + url),
        nl(),
        nl(),
    ];
    let cats = if categories.len() > 0 {
        seq![
            nl(),
            PieceView::Styled(Role::Separator, sep_line(rv)),
            nl(),
            PieceView::Styled(Role::Dim, emoji(rv, "🏷️"@) + " Categories:"@),
            nl(),
            PieceView::Styled(
                Role::Dim,
                join(first_n(categories, 10).map_values(|c: Seq<char>| category_tag(c)), "  "@),
            ),
            nl(),
        ]
    } else {
        Seq::empty()
    };
    head + body_lines(rv, lines(content)) + cats + seq![nl()]
}

/// The layout of an article's summary.
pub open spec fn summary_layout(
    rv: RendererView,
    title: Seq<char>,
    url: Seq<char>,
    summary: Seq<char>,
) -> Seq<PieceView> {
    let head = seq![
        nl(),
        PieceView::Styled(Role::Title, emoji(rv, "💡"@) + " "@ + title),
        nl(),
        PieceView::Styled(Role::Separator, sep_line(rv)),
        nl(),
        PieceView::Styled(Role::Link, emoji(rv, "🔗"@) + " "@ + url),
        nl(),
        nl(),
    ];
    let body = if summary.len() == 0 {
        seq![PieceView::Styled(Role::Dim, "(no summary available)"@), nl()]
    } else {
        role_lines(wrapped(rv, summary, Seq::empty()), Role::Body)
    };
    head + body + seq![nl()]
}


/// The entry of the `i`-th (from 0) search result.
pub open spec fn result_entry(rv: RendererView, i: nat, r: (Seq<char>, Seq<char>, u32, u64)) -> Seq<
    PieceView,
> {
    let words = if r.2 > 0 {
        seq![PieceView::Styled(Role::Dim, "    "@ + decimal(r.2 as nat) + " words"@), nl()]
    } else {
        Seq::empty()
    };
    let snippet = if r.1.len() > 0 {
        role_lines(wrapped(rv, replace(r.1, "\n"@, " "@), "    "@), Role::ResultSnippet)
    } else {
        Seq::empty()
    };
    seq![
        nl(),
        PieceView::Styled(Role::ResultIndex, "["@ + decimal(i + 1) + "]"@),
        PieceView::Text(" "@ + emoji(rv, "📄"@) + " "@),
        PieceView::Styled(Role::ResultTitle, r.0),
        nl(),
    ] + words + snippet
}

/// The entries of the search results `rs`, numbered from 1.
pub open spec fn result_entries(rv: RendererView, rs: Seq<(Seq<char>, Seq<char>, u32, u64)>) -> Seq<
    PieceView,
>
    decreases rs.len(),
{
    if rs.len() == 0 {
        Seq::empty()
    } else {
        result_entries(rv, rs.drop_last()) + result_entry(rv, (rs.len() - 1) as nat, rs.last())
    }
}

/// The layout of a list of search results for `query`.
pub open spec fn search_layout(
    rv: RendererView,
    query: Seq<char>,
    rs: Seq<(Seq<char>, Seq<char>, u32, u64)>,
) -> Seq<PieceView> {
    let head = seq![
        nl(),
        PieceView::Styled(
            Role::Title,
            emoji(rv, "🔍"@) + " Search: \""@ + query + "\"  ("@ + decimal(rs.len()) + " results)"@,
        ),
        nl(),
        PieceView::Styled(Role::Separator, sep_line(rv)),
        nl(),
    ];
    if rs.len() == 0 {
        head + seq![
            PieceView::Styled(
                Role::Error,
                emoji(rv, "⚠️"@) + " No results found for \""@ + query + "\""@,
            ),
            nl(),
        ]
    } else {
        head + result_entries(rv, rs) + seq![
            nl(),
            PieceView::Styled(Role::Separator, sep_line(rv)),
            nl(),
            PieceView::Styled(Role::Dim, "  tip: use `wiky get \"<title>\"` to read an article"@),
            nl(),
            nl(),
        ]
    }
}

/// A plain message.
pub open spec fn message_layout(msg: Seq<char>) -> Seq<PieceView> {
    seq![PieceView::Styled(Role::Body, msg), nl()]
}

/// A success message.
pub open spec fn success_layout(rv: RendererView, msg: Seq<char>) -> Seq<PieceView> {
    seq![PieceView::Styled(Role::Success, emoji(rv, "✅"@) + " "@ + msg), nl()]
}

/// An error message.
pub open spec fn error_layout(rv: RendererView, msg: Seq<char>) -> Seq<PieceView> {
    seq![PieceView::Styled(Role::Error, emoji(rv, "⚠️"@) + " "@ + msg), nl()]
}

/// The name of the built-in theme whose title color `title` is (dark for
/// any other color).
pub open spec fn theme_name_of(title: Seq<char>) -> Seq<char> {
    if title == "#88C0D0"@ {
        "nord"@
    } else if title == "#268BD2"@ {
        "solarized"@
    } else if title == "#8BE9FD"@ {
        "dracula"@
    } else if title == "#005F87"@ {
        "light"@
    } else {
        "dark"@
    }
}

/// One line of the theme list.
pub open spec fn theme_entry(rv: RendererView, name: Seq<char>) -> Seq<PieceView> {
    seq![
        PieceView::Text("  "@ + emoji(rv, "🖌️"@) + " "@),
        PieceView::Styled(Role::Heading, name),
        PieceView::Styled(
            Role::Dim,
            if name == theme_name_of(rv.theme[0]) {
                " ← active"@
            } else {
                Seq::empty()
            },
        ),
        nl(),
    ]
}

/// The list of available themes, the active one marked.
pub open spec fn themes_list_layout(rv: RendererView) -> Seq<PieceView> {
    seq![
        nl(),
        PieceView::Styled(Role::Title, "🎨  Available Themes"@),
        nl(),
        PieceView::Styled(Role::Separator, sep_line(rv)),
        nl(),
    ] + theme_entry(rv, "dark"@) + theme_entry(rv, "light"@) + theme_entry(rv, "solarized"@)
        + theme_entry(rv, "nord"@) + theme_entry(rv, "dracula"@) + theme_entry(rv, "custom"@)
        + seq![
        nl(),
        PieceView::Styled(Role::Dim, "  Set theme: wiky config set theme <name>"@),
        nl(),
        nl(),
    ]
}

/// `s` padded with spaces to 20 characters (`{:<20}`).
pub open spec fn pad20(s: Seq<char>) -> Seq<char> {
    if s.len() >= 20 {
        s
    } else {
        s + repeat(" "@, (20 - s.len()) as nat)
    }
}

/// `true` or `false`.
pub open spec fn bool_text(b: bool) -> Seq<char> {
    if b {
        "true"@
    } else {
        "false"@
    }
}

/// One setting in the configuration listing.
pub open spec fn config_row(key: Seq<char>, value: Seq<char>) -> Seq<PieceView> {
    seq![
        PieceView::Text("  "@),
        PieceView::Styled(Role::Heading, pad20(key)),
        PieceView::Text(" "@),
        PieceView::Styled(Role::Body, value),
        nl(),
    ]
}

/// The settings shown in the configuration listing.
pub open spec fn config_rows(c: crate::config::ConfigView) -> Seq<PieceView> {
    config_row("language"@, c.language) + config_row("theme"@, c.theme) + config_row(
        "width"@,
        decimal(c.width as nat),
    ) + config_row("pager"@, bool_text(c.pager)) + config_row(
        "results_count"@,
        decimal(c.results_count as nat),
    ) + config_row("open_urls"@, bool_text(c.open_urls))
}

/// The configuration listing, with the configuration file's path if known.
pub open spec fn config_info_layout(
    rv: RendererView,
    c: crate::config::ConfigView,
    path: Option<Seq<char>>,
) -> Seq<PieceView> {
    let rows = config_rows(c);
    let tail = match path {
        Some(p) => seq![
            nl(),
            PieceView::Text("  "@),
            PieceView::Styled(Role::Dim, pad20("config file"@)),
            PieceView::Text(" "@),
            PieceView::Styled(Role::Link, p),
            nl(),
        ],
        None => Seq::empty(),
    };
    seq![
        nl(),
        PieceView::Styled(Role::Title, "⚙️  wiky Configuration"@),
        nl(),
        PieceView::Styled(Role::Separator, sep_line(rv)),
        nl(),
    ] + rows + tail + seq![nl()]
}

/// The numbered options of a disambiguation page.
pub open spec fn option_entries(labels: Seq<Seq<char>>) -> Seq<PieceView>
    decreases labels.len(),
{
    if labels.len() == 0 {
        Seq::empty()
    } else {
        option_entries(labels.drop_last()) + seq![
            PieceView::Text("  "@),
            PieceView::Styled(Role::ResultIndex, "["@ + decimal(labels.len()) + "]"@),
            PieceView::Text(" "@),
            PieceView::Styled(Role::ResultSnippet, labels.last()),
            nl(),
        ]
    }
}

/// The menu of a disambiguation page.
pub open spec fn disambiguation_layout(
    rv: RendererView,
    title: Seq<char>,
    labels: Seq<Seq<char>>,
) -> Seq<PieceView> {
    seq![
        nl(),
        PieceView::Styled(Role::Title, "🔀  "@ + title + " — disambiguation"@),
        nl(),
        PieceView::Styled(Role::Separator, sep_line(rv)),
        nl(),
        PieceView::Styled(Role::Dim, "  This page has multiple meanings. Choose one:"@),
        nl(),
        nl(),
    ] + option_entries(labels) + seq![
        nl(),
        PieceView::Text("  "@),
        PieceView::Styled(Role::ResultIndex, "[0]"@),
        PieceView::Text(" "@),
        PieceView::Styled(Role::Dim, "quit / go back"@),
        nl(),
        nl(),
    ]
}

/// One category in a category listing.
pub open spec fn category_entries(cats: Seq<Seq<char>>) -> Seq<PieceView>
    decreases cats.len(),
{
    if cats.len() == 0 {
        Seq::empty()
    } else {
        category_entries(cats.drop_last()) + seq![
            PieceView::Text("  "@),
            PieceView::Styled(Role::ResultIndex, "•"@),
            PieceView::Text(" "@),
            PieceView::Styled(Role::Body, cats.last()),
            nl(),
        ]
    }
}

/// The categories of an article (`wiky categories`).
pub open spec fn categories_layout(title: Seq<char>, cats: Seq<Seq<char>>) -> Seq<PieceView> {
    let body = if cats.len() == 0 {
        seq![PieceView::Styled(Role::Dim, "  (none found)"@), nl()]
    } else {
        category_entries(cats)
    };
    seq![
        nl(),
        PieceView::Styled(Role::Title, "🏷️  Categories — "@ + title),
        nl(),
        PieceView::Styled(Role::Separator, repeat("─"@, 60)),
        nl(),
    ] + body + seq![nl()]
}


/// `s` padded with spaces to 20 characters.
fn pad20_exec(s: &[char]) -> (r: Vec<char>)
    ensures
        r@ == pad20(s@),
{
    if s.len() >= 20 {
        crate::text::slice_chars(s, 0, s.len())
    } else {
        cat2(s, &repeat_exec(&chars_of(" "), 20 - s.len()))
    }
}

/// `true` or `false`.
fn bool_text_exec(b: bool) -> (r: Vec<char>)
    ensures
        r@ == bool_text(b),
{
    if b {
        chars_of("true")
    } else {
        chars_of("false")
    }
}

// ─── Renderer ────────────────────────────────────────────────────────────────

/// Terminal renderer for Wikipedia content.
pub struct Renderer {
    theme: Theme,
    width: u16,
    emoji: bool,
}

impl View for Renderer {
    type V = RendererView;

    closed spec fn view(&self) -> RendererView {
        RendererView { theme: self.theme@, width: self.width, emoji: self.emoji }
    }
}

/// Wraps `text` with `textwrap::wrap`: lines of at most `width` columns,
/// each starting with `indent`. The lines are named by `wrapped_lines`, a
/// function of the three arguments (the algorithm and the Unicode width
/// tables are fixed).
#[verifier::external_body]
fn textwrap_wrap(text: &str, width: usize, indent: &str) -> (r: Vec<String>)
    ensures
        texts(r@) == wrapped_lines(text@, width as nat, indent@),
{
    let opts = textwrap::Options::new(width).initial_indent(indent).subsequent_indent(indent);
    textwrap::wrap(text, opts).into_iter().map(|s| s.into_owned()).collect()
}

impl Renderer {
    /// Create a renderer (its output goes to stdout).
    pub fn stdout(theme: Theme, width: u16, emoji: bool) -> (r: Renderer)
        ensures
            r@ == (RendererView { theme: theme@, width, emoji }),
    {
        Renderer { theme, width, emoji }
    }

    /// Backwards-compatible constructor alias.
    pub fn new(theme: Theme, width: u16, emoji: bool) -> (r: Renderer)
        ensures
            r@ == (RendererView { theme: theme@, width, emoji }),
    {
        Self::stdout(theme, width, emoji)
    }

    /// The theme this renderer colors with.
    pub fn theme(&self) -> (t: &Theme)
        ensures
            t@ == self@.theme,
    {
        &self.theme
    }

    /// The output width.
    pub fn w(&self) -> (n: usize)
        ensures
            n == self@.width,
    {
        self.width as usize
    }

    /// `icon` where emoji are on, else nothing.
    pub fn em(&self, icon: &str) -> (r: Vec<char>)
        ensures
            r@ == emoji(self@, icon@),
    {
        if self.emoji {
            chars_of(icon)
        } else {
            Vec::new()
        }
    }

    /// A horizontal rule as wide as the output, at most 80 columns.
    pub fn sep_line(&self) -> (r: Vec<char>)
        ensures
            r@ == sep_line(self@),
    {
        let n = if self.width < 80 {
            self.width as usize
        } else {
            80
        };
        repeat_exec(&chars_of("─"), n)
    }

    /// Wrap `text` to the output width, with `indent` before each line.
    pub fn wrap(&self, text: &str, indent: &str) -> (r: Vec<String>)
        ensures
            texts(r@) == wrapped(self@, text@, indent@),
    {
        let iv = chars_of(indent);
        let ilen = utf8_len_capped(&iv, 65536);
        let width: usize = if ilen >= self.width as usize {
            0
        } else {
            self.width as usize - ilen
        };
        textwrap_wrap(text, width, indent)
    }

    /// Appends each of `ls` in role `r`, on a line of its own.
    pub fn put_role_lines(ps: &mut Vec<Piece>, ls: &Vec<String>, r: Role)
        ensures
            views(final(ps)@) == views(old(ps)@) + role_lines(texts(ls@), r),
    {
        let ghost p0 = views(ps@);
        let ghost tl = texts(ls@);
        let mut i: usize = 0;
        while i < ls.len()
            invariant
                0 <= i <= ls.len(),
                tl == texts(ls@),
                views(ps@) == p0 + role_lines(tl.take(i as int), r),
            decreases ls.len() - i,
        {
            put_styled(ps, r, &chars_of(ls[i].as_str()));
            put_nl(ps);
            proof {
                assert(tl.take(i + 1).drop_last() =~= tl.take(i as int));
                assert(tl.take(i + 1).last() == ls@[i as int]@);
                assert(views(ps@) =~= p0 + role_lines(tl.take(i + 1), r));
            }
            i = i + 1;
        }
        assert(tl.take(ls.len() as int) =~= tl);
    }

    /// Appends the layout of one line of article content.
    fn put_body_line(&self, ps: &mut Vec<Piece>, t: &[char])
        ensures
            views(final(ps)@) == views(old(ps)@) + body_line(self@, t@),
    {
        let ghost p0 = views(ps@);
        proof {
            reveal_strlit("#### ");
            reveal_strlit("### ");
            reveal_strlit("## ");
            reveal_strlit("# ");
            reveal_strlit("");
            assert(""@ =~= Seq::<char>::empty());
        }
        if starts_with_exec(t, &chars_of("#### ")) {
            let rest = crate::text::slice_chars(t, 5, t.len());
            put_styled(ps, Role::ItalicText, &cat2(&chars_of("  "), &rest));
            put_nl(ps);
            assert(rest@ =~= t@.skip(5));
        } else if starts_with_exec(t, &chars_of("### ")) {
            let rest = crate::text::slice_chars(t, 4, t.len());
            put_text(ps, &cat2(&chars_of("  "), &self.em("🔹")));
            put_styled(ps, Role::Subheading, &cat2(&chars_of(" "), &rest));
            put_nl(ps);
            assert(rest@ =~= t@.skip(4));
        } else if starts_with_exec(t, &chars_of("## ")) {
            let rest = crate::text::slice_chars(t, 3, t.len());
            assert(rest@ =~= t@.skip(3));
            put_nl(ps);
            put_text(ps, &self.em("📌"));
            put_styled(ps, Role::Heading, &cat2(&chars_of(" "), &rest));
            put_nl(ps);
            put_styled(ps, Role::Separator, &repeat_exec(&chars_of("─"), rest.len() + 2));
            put_nl(ps);
        } else if starts_with_exec(t, &chars_of("# ")) {
            let rest = crate::text::slice_chars(t, 2, t.len());
            assert(rest@ =~= t@.skip(2));
            put_nl(ps);
            put_styled(ps, Role::Title, &rest);
            put_nl(ps);
        } else if starts_with_exec(t, &chars_of("  •")) {
            let stripped = strip_prefixes_exec(t, &chars_of("  •"));
            let content = trim_exec(&stripped);
            let ls = self.wrap(string_of(&content).as_str(), "  • ");
            Self::put_role_lines(ps, &ls, Role::Body);
        } else if t.len() == 0 {
            put_nl(ps);
        } else {
            let ls = self.wrap(string_of(t).as_str(), "");
            Self::put_role_lines(ps, &ls, Role::Body);
        }
        assert(views(ps@) =~= p0 + body_line(self@, t@));
    }

    /// Appends the layout of article content.
    fn put_body(&self, ps: &mut Vec<Piece>, content: &str)
        ensures
            views(final(ps)@) == views(old(ps)@) + body_lines(self@, lines(content@)),
    {
        let ghost p0 = views(ps@);
        let c = chars_of(content);
        let ls = lines_exec(&c);
        let ghost lv = lines(content@);
        let mut i: usize = 0;
        while i < ls.len()
            invariant
                0 <= i <= ls.len(),
                ls@.len() == lv.len(),
                lv == lines(content@),
                forall|k: int| 0 <= k < ls@.len() ==> (#[trigger] ls@[k])@ == lv[k],
                views(ps@) == p0 + body_lines(self@, lv.take(i as int)),
            decreases ls.len() - i,
        {
            let t = trim_end_exec(&ls[i]);
            self.put_body_line(ps, &t);
            proof {
                assert(lv.take(i + 1).drop_last() =~= lv.take(i as int));
                assert(lv.take(i + 1).last() == lv[i as int]);
                assert(views(ps@) =~= p0 + body_lines(self@, lv.take(i + 1)));
            }
            i = i + 1;
        }
        assert(lv.take(ls.len() as int) =~= lv);
    }

    /// The pieces of a full article.
    pub fn article_pieces(&self, article: &Article) -> (ps: Vec<Piece>)
        ensures
            views(ps@) == article_layout(
                self@,
                article.title@,
                article.url@,
                article.content@,
                texts(article.categories@),
            ),
    {
        let mut ps: Vec<Piece> = Vec::new();
        let title = chars_of(article.title.as_str());
        let url = chars_of(article.url.as_str());
        put_nl(&mut ps);
        put_styled(&mut ps, Role::Title, &cat2(&cat(&self.em("📖"), " "), &title));
        put_nl(&mut ps);
        put_styled(&mut ps, Role::Separator, &self.sep_line());
        put_nl(&mut ps);
        put_styled(&mut ps, Role::Link, &cat2(&cat(&self.em("🔗"), " "), &url));
        put_nl(&mut ps);
        put_nl(&mut ps);
        let ghost head = views(ps@);
        assert(head =~= seq![
            nl(),
            PieceView::Styled(Role::Title, emoji(self@, "📖"@) + " "@ + article.title@),
            nl(),
            PieceView::Styled(Role::Separator, sep_line(self@)),
            nl(),
            PieceView::Styled(Role::Link, emoji(self@, "🔗"@) + " "@ + article.url@),
            nl(),
            nl(),
        ]);
        self.put_body(&mut ps, article.content.as_str());
        let ghost after_body = views(ps@);
        let cats = &article.categories;
        if cats.len() > 0 {
            put_nl(&mut ps);
            put_styled(&mut ps, Role::Separator, &self.sep_line());
            put_nl(&mut ps);
            put_styled(&mut ps, Role::Dim, &cat(&self.em("🏷️"), " Categories:"));
            put_nl(&mut ps);
            let mut tags: Vec<Vec<char>> = Vec::new();
            let mut i: usize = 0;
            let ghost cv = texts(cats@);
            while i < cats.len() && i < 10
                invariant
                    0 <= i <= 10,
                    i <= cats@.len(),
                    cv == texts(cats@),
                    tags@.map_values(|p: Vec<char>| p@) == cv.take(i as int).map_values(
                        |c: Seq<char>| category_tag(c),
                    ),
                decreases cats.len() - i,
            {
                let tag = cat(&cat2(&chars_of("  ["), &chars_of(cats[i].as_str())), "]");
                let ghost t0 = tags@;
                tags.push(tag);
                proof {
                    assert(tags@ =~= t0.push(tag));
                    assert(tags@.map_values(|p: Vec<char>| p@) =~= t0.map_values(|p: Vec<char>| p@).push(tag@));
                    assert(cv.take(i + 1).map_values(|c: Seq<char>| category_tag(c)) =~= cv.take(i as int).map_values(|c: Seq<char>| category_tag(c)).push(category_tag(cv[i as int])));
                    assert(cv.take(i + 1) =~= cv.take(i as int).push(cv[i as int]));
                    assert(cv[i as int] == cats@[i as int]@);
                    assert(tags@.map_values(|p: Vec<char>| p@) =~= cv.take(i + 1).map_values(
                        |c: Seq<char>| category_tag(c),
                    ));
                }
                i = i + 1;
            }
            proof {
                if cats@.len() >= 10 {
                    assert(i == 10);
                } else {
                    assert(cv.take(i as int) =~= cv);
                }
            }
            assert(tags@.map_values(|p: Vec<char>| p@) == first_n(cv, 10).map_values(
                |c: Seq<char>| category_tag(c),
            ));
            let joined = join_exec(&tags, &chars_of("  "));
            put_styled(&mut ps, Role::Dim, &joined);
            put_nl(&mut ps);
            assert(views(ps@) =~= after_body + seq![
                nl(),
                PieceView::Styled(Role::Separator, sep_line(self@)),
                nl(),
                PieceView::Styled(Role::Dim, emoji(self@, "🏷️"@) + " Categories:"@),
                nl(),
                PieceView::Styled(
                    Role::Dim,
                    join(first_n(cv, 10).map_values(|c: Seq<char>| category_tag(c)), "  "@),
                ),
                nl(),
            ]);
        } else {
            assert(views(ps@) =~= after_body + Seq::<PieceView>::empty());
        }
        put_nl(&mut ps);
        assert(views(ps@) =~= article_layout(
            self@,
            article.title@,
            article.url@,
            article.content@,
            texts(article.categories@),
        ));
        ps
    }

    /// The pieces of an article's summary.
    pub fn summary_pieces(&self, article: &Article) -> (ps: Vec<Piece>)
        ensures
            views(ps@) == summary_layout(self@, article.title@, article.url@, article.summary@),
    {
        let mut ps: Vec<Piece> = Vec::new();
        let title = chars_of(article.title.as_str());
        let url = chars_of(article.url.as_str());
        put_nl(&mut ps);
        put_styled(&mut ps, Role::Title, &cat2(&cat(&self.em("💡"), " "), &title));
        put_nl(&mut ps);
        put_styled(&mut ps, Role::Separator, &self.sep_line());
        put_nl(&mut ps);
        put_styled(&mut ps, Role::Link, &cat2(&cat(&self.em("🔗"), " "), &url));
        put_nl(&mut ps);
        put_nl(&mut ps);
        assert(views(ps@) =~= seq![
            nl(),
            PieceView::Styled(Role::Title, emoji(self@, "💡"@) + " "@ + article.title@),
            nl(),
            PieceView::Styled(Role::Separator, sep_line(self@)),
            nl(),
            PieceView::Styled(Role::Link, emoji(self@, "🔗"@) + " "@ + article.url@),
            nl(),
            nl(),
        ]);
        let ghost head = views(ps@);
        proof {
            reveal_strlit("");
            assert(""@ =~= Seq::<char>::empty());
        }
        if article.summary.as_str().is_empty() {
            put_styled(&mut ps, Role::Dim, &chars_of("(no summary available)"));
            put_nl(&mut ps);
            assert(views(ps@) =~= head + seq![
                PieceView::Styled(Role::Dim, "(no summary available)"@),
                nl(),
            ]);
        } else {
            let ls = self.wrap(article.summary.as_str(), "");
            Self::put_role_lines(&mut ps, &ls, Role::Body);
            assert(views(ps@) == head + role_lines(
                wrapped(self@, article.summary@, Seq::empty()),
                Role::Body,
            ));
        }
        put_nl(&mut ps);
        assert(views(ps@) =~= summary_layout(
            self@,
            article.title@,
            article.url@,
            article.summary@,
        ));
        ps
    }

    /// Render a full article into a colored `String`.
    pub fn article_to_string(&self, article: &Article) -> (s: String)
        requires
            colors_ok(
                self@.theme,
                article_layout(
                    self@,
                    article.title@,
                    article.url@,
                    article.content@,
                    texts(article.categories@),
                ),
            ),
        ensures
            renders(
                self@.theme,
                article_layout(
                    self@,
                    article.title@,
                    article.url@,
                    article.content@,
                    texts(article.categories@),
                ),
                s@,
            ),
    {
        let ps = self.article_pieces(article);
        render(&self.theme, &ps)
    }

    /// Render a summary into a colored `String`.
    pub fn summary_to_string(&self, article: &Article) -> (s: String)
        requires
            colors_ok(
                self@.theme,
                summary_layout(self@, article.title@, article.url@, article.summary@),
            ),
        ensures
            renders(
                self@.theme,
                summary_layout(self@, article.title@, article.url@, article.summary@),
                s@,
            ),
    {
        let ps = self.summary_pieces(article);
        render(&self.theme, &ps)
    }

    /// Appends the entry of the `i`-th (from 0) search result.
    fn put_result_entry(&self, ps: &mut Vec<Piece>, i: usize, r: &SearchResult)
        requires
            i < usize::MAX,
        ensures
            views(final(ps)@) == views(old(ps)@) + result_entry(self@, i as nat, r@),
    {
        let ghost p0 = views(ps@);
        put_nl(ps);
        let idx = cat(&cat2(&chars_of("["), &decimal_exec((i + 1) as u64)), "]");
        put_styled(ps, Role::ResultIndex, &idx);
        put_text(ps, &cat(&cat2(&chars_of(" "), &self.em("📄")), " "));
        put_styled(ps, Role::ResultTitle, &chars_of(r.title.as_str()));
        put_nl(ps);
        let ghost head = views(ps@);
        assert(head =~= p0 + seq![
            nl(),
            PieceView::Styled(Role::ResultIndex, "["@ + decimal((i + 1) as nat) + "]"@),
            PieceView::Text(" "@ + emoji(self@, "📄"@) + " "@),
            PieceView::Styled(Role::ResultTitle, r@.0),
            nl(),
        ]);
        if r.wordcount > 0 {
            let wc = cat(&cat2(&chars_of("    "), &decimal_exec(r.wordcount as u64)), " words");
            put_styled(ps, Role::Dim, &wc);
            put_nl(ps);
        }
        let ghost mid = views(ps@);
        let sn = chars_of(r.snippet.as_str());
        if sn.len() > 0 {
            let clean = replace_exec(&sn, &chars_of("\n"), &chars_of(" "));
            let ls = self.wrap(string_of(&clean).as_str(), "    ");
            Self::put_role_lines(ps, &ls, Role::ResultSnippet);
        } else {
            assert(views(ps@) =~= mid + Seq::<PieceView>::empty());
        }
        assert(views(ps@) =~= p0 + result_entry(self@, i as nat, r@));
    }

    /// The pieces of a list of search results for `query`.
    pub fn search_pieces(&self, query: &str, results: &[SearchResult]) -> (ps: Vec<Piece>)
        ensures
            views(ps@) == search_layout(self@, query@, results@.map_values(|r: SearchResult| r@)),
    {
        let ghost rv = results@.map_values(|r: SearchResult| r@);
        let mut ps: Vec<Piece> = Vec::new();
        let q = chars_of(query);
        put_nl(&mut ps);
        let mut hdr = cat(&cat2(&cat(&self.em("🔍"), " Search: \""), &q), "\"  (");
        extend_chars(&mut hdr, &decimal_exec(results.len() as u64));
        extend_str(&mut hdr, " results)");
        put_styled(&mut ps, Role::Title, &hdr);
        put_nl(&mut ps);
        put_styled(&mut ps, Role::Separator, &self.sep_line());
        put_nl(&mut ps);
        let ghost head = views(ps@);
        assert(head =~= seq![
            nl(),
            PieceView::Styled(
                Role::Title,
                emoji(self@, "🔍"@) + " Search: \""@ + query@ + "\"  ("@ + decimal(rv.len())
                    + " results)"@,
            ),
            nl(),
            PieceView::Styled(Role::Separator, sep_line(self@)),
            nl(),
        ]);
        if results.len() == 0 {
            let msg = cat(&cat2(&cat(&self.em("⚠️"), " No results found for \""), &q), "\"");
            put_styled(&mut ps, Role::Error, &msg);
            put_nl(&mut ps);
            assert(views(ps@) =~= search_layout(self@, query@, rv));
            return ps;
        }
        let mut i: usize = 0;
        while i < results.len()
            invariant
                0 <= i <= results@.len(),
                rv == results@.map_values(|r: SearchResult| r@),
                views(ps@) == head + result_entries(self@, rv.take(i as int)),
            decreases results.len() - i,
        {
            self.put_result_entry(&mut ps, i, &results[i]);
            proof {
                assert(rv.take(i + 1).drop_last() =~= rv.take(i as int));
                assert(rv.take(i + 1).last() == results@[i as int]@);
                assert(views(ps@) =~= head + result_entries(self@, rv.take(i + 1)));
            }
            i = i + 1;
        }
        assert(rv.take(results.len() as int) =~= rv);
        let ghost body = views(ps@);
        put_nl(&mut ps);
        put_styled(&mut ps, Role::Separator, &self.sep_line());
        put_nl(&mut ps);
        put_styled(&mut ps, Role::Dim, &chars_of("  tip: use `wiky get \"<title>\"` to read an article"));
        put_nl(&mut ps);
        put_nl(&mut ps);
        assert(views(ps@) =~= body + seq![
            nl(),
            PieceView::Styled(Role::Separator, sep_line(self@)),
            nl(),
            PieceView::Styled(Role::Dim, "  tip: use `wiky get \"<title>\"` to read an article"@),
            nl(),
            nl(),
        ]);
        ps
    }

    /// Render search results into a colored `String`.
    pub fn search_to_string(&self, query: &str, results: &[SearchResult]) -> (s: String)
        requires
            colors_ok(
                self@.theme,
                search_layout(self@, query@, results@.map_values(|r: SearchResult| r@)),
            ),
        ensures
            renders(
                self@.theme,
                search_layout(self@, query@, results@.map_values(|r: SearchResult| r@)),
                s@,
            ),
    {
        let ps = self.search_pieces(query, results);
        render(&self.theme, &ps)
    }

    /// The pieces of a plain message.
    pub fn message_pieces(&self, msg: &str) -> (ps: Vec<Piece>)
        ensures
            views(ps@) == message_layout(msg@),
    {
        let mut ps: Vec<Piece> = Vec::new();
        put_styled(&mut ps, Role::Body, &chars_of(msg));
        put_nl(&mut ps);
        assert(views(ps@) =~= message_layout(msg@));
        ps
    }

    /// The pieces of a success message.
    pub fn success_pieces(&self, msg: &str) -> (ps: Vec<Piece>)
        ensures
            views(ps@) == success_layout(self@, msg@),
    {
        let mut ps: Vec<Piece> = Vec::new();
        put_styled(&mut ps, Role::Success, &cat2(&cat(&self.em("✅"), " "), &chars_of(msg)));
        put_nl(&mut ps);
        assert(views(ps@) =~= success_layout(self@, msg@));
        ps
    }

    /// The pieces of an error message.
    pub fn error_pieces(&self, msg: &str) -> (ps: Vec<Piece>)
        ensures
            views(ps@) == error_layout(self@, msg@),
    {
        let mut ps: Vec<Piece> = Vec::new();
        put_styled(&mut ps, Role::Error, &cat2(&cat(&self.em("⚠️"), " "), &chars_of(msg)));
        put_nl(&mut ps);
        assert(views(ps@) =~= error_layout(self@, msg@));
        ps
    }

    /// Return a dim-colored string (useful for callers that do their own
    /// printing).
    ///
    /// The paint shown is the one `self.theme().dim(s)` returns (the text,
    /// the theme's dim color, no background, no emphasis), which is also the
    /// paint of the `Dim` role.
    pub fn dim_str(&self, s: &str) -> (r: String)
        requires
            hex_ok(self@.theme[role_field(Role::Dim)]),
        ensures
            shows(
                crate::theme::PaintView {
                    text: s@,
                    fg: hex_color(self@.theme[role_field(Role::Dim)]),
                    bg: None,
                    emphasis: Seq::empty(),
                },
                r@,
            ),
            shows(role_paint(self@.theme, Role::Dim, s@), r@),
    {
        let p = self.theme.dim(s);
        assert(p@ =~= role_paint(self@.theme, Role::Dim, s@));
        show(&p)
    }

    /// The name of the built-in theme whose title color this theme has.
    fn theme_name(&self) -> (r: Vec<char>)
        ensures
            r@ == theme_name_of(self@.theme[0]),
    {
        let t = chars_of(self.theme.title.as_str());
        if eq_chars(&t, &chars_of("#88C0D0")) {
            chars_of("nord")
        } else if eq_chars(&t, &chars_of("#268BD2")) {
            chars_of("solarized")
        } else if eq_chars(&t, &chars_of("#8BE9FD")) {
            chars_of("dracula")
        } else if eq_chars(&t, &chars_of("#005F87")) {
            chars_of("light")
        } else {
            chars_of("dark")
        }
    }

    /// Appends one line of the theme list.
    fn put_theme_entry(&self, ps: &mut Vec<Piece>, name: &str, active: &[char])
        requires
            active@ == theme_name_of(self@.theme[0]),
        ensures
            views(final(ps)@) == views(old(ps)@) + theme_entry(self@, name@),
    {
        let ghost p0 = views(ps@);
        let n = chars_of(name);
        put_text(ps, &cat(&cat2(&chars_of("  "), &self.em("🖌️")), " "));
        put_styled(ps, Role::Heading, &n);
        if eq_chars(&n, active) {
            put_styled(ps, Role::Dim, &chars_of(" ← active"));
        } else {
            put_styled(ps, Role::Dim, &Vec::new());
        }
        put_nl(ps);
        assert(views(ps@) =~= p0 + theme_entry(self@, name@));
    }

    /// The pieces of the list of available themes.
    pub fn themes_list_pieces(&self) -> (ps: Vec<Piece>)
        ensures
            views(ps@) == themes_list_layout(self@),
    {
        let mut ps: Vec<Piece> = Vec::new();
        put_nl(&mut ps);
        put_styled(&mut ps, Role::Title, &chars_of("🎨  Available Themes"));
        put_nl(&mut ps);
        put_styled(&mut ps, Role::Separator, &self.sep_line());
        put_nl(&mut ps);
        let ghost head = views(ps@);
        let active = self.theme_name();
        self.put_theme_entry(&mut ps, "dark", &active);
        self.put_theme_entry(&mut ps, "light", &active);
        self.put_theme_entry(&mut ps, "solarized", &active);
        self.put_theme_entry(&mut ps, "nord", &active);
        self.put_theme_entry(&mut ps, "dracula", &active);
        self.put_theme_entry(&mut ps, "custom", &active);
        let ghost entries = views(ps@);
        put_nl(&mut ps);
        put_styled(&mut ps, Role::Dim, &chars_of("  Set theme: wiky config set theme <name>"));
        put_nl(&mut ps);
        put_nl(&mut ps);
        assert(views(ps@) =~= themes_list_layout(self@));
        ps
    }

    /// Appends one setting of the configuration listing.
    fn put_config_row(ps: &mut Vec<Piece>, key: &str, value: &[char])
        ensures
            views(final(ps)@) == views(old(ps)@) + config_row(key@, value@),
    {
        let ghost p0 = views(ps@);
        put_text(ps, &chars_of("  "));
        put_styled(ps, Role::Heading, &pad20_exec(&chars_of(key)));
        put_text(ps, &chars_of(" "));
        put_styled(ps, Role::Body, value);
        put_nl(ps);
        assert(views(ps@) =~= p0 + config_row(key@, value@));
    }

    /// Appends the settings of the configuration listing.
    fn put_config_rows(ps: &mut Vec<Piece>, config: &crate::config::Config)
        ensures
            views(final(ps)@) == views(old(ps)@) + config_rows(config@),
    {
        let ghost p0 = views(ps@);
        Self::put_config_row(ps, "language", &chars_of(config.language.as_str()));
        Self::put_config_row(ps, "theme", &chars_of(config.theme.as_str()));
        Self::put_config_row(ps, "width", &decimal_exec(config.width as u64));
        Self::put_config_row(ps, "pager", &bool_text_exec(config.pager));
        Self::put_config_row(ps, "results_count", &decimal_exec(config.results_count as u64));
        Self::put_config_row(ps, "open_urls", &bool_text_exec(config.open_urls));
        assert(views(ps@) =~= p0 + config_rows(config@));
    }

    /// The pieces of the configuration listing; `path` is where the
    /// configuration file is stored, if that is known.
    pub fn config_info_pieces(&self, config: &crate::config::Config, path: Option<&str>) -> (ps: Vec<
        Piece,
    >)
        ensures
            views(ps@) == config_info_layout(
                self@,
                config@,
                match path {
                    Some(p) => Some(p@),
                    None => None,
                },
            ),
    {
        let mut ps: Vec<Piece> = Vec::new();
        put_nl(&mut ps);
        put_styled(&mut ps, Role::Title, &chars_of("⚙️  wiky Configuration"));
        put_nl(&mut ps);
        put_styled(&mut ps, Role::Separator, &self.sep_line());
        put_nl(&mut ps);
        Self::put_config_rows(&mut ps, config);
        let ghost rows = views(ps@);
        match path {
            Some(p) => {
                put_nl(&mut ps);
                put_text(&mut ps, &chars_of("  "));
                put_styled(&mut ps, Role::Dim, &pad20_exec(&chars_of("config file")));
                put_text(&mut ps, &chars_of(" "));
                put_styled(&mut ps, Role::Link, &chars_of(p));
                put_nl(&mut ps);
            },
            None => {
                assert(views(ps@) =~= rows + Seq::<PieceView>::empty());
            },
        }
        put_nl(&mut ps);
        assert(views(ps@) =~= config_info_layout(
            self@,
            config@,
            match path {
                Some(p) => Some(p@),
                None => None,
            },
        ));
        ps
    }

    /// The pieces of a disambiguation menu with the options `opts`.
    pub fn disambiguation_pieces(&self, article: &Article, opts: &[crate::client::DisambigOption]) -> (ps: Vec<
        Piece,
    >)
        ensures
            views(ps@) == disambiguation_layout(
                self@,
                article.title@,
                opts@.map_values(|o: crate::client::DisambigOption| o.label@),
            ),
    {
        let ghost labels = opts@.map_values(|o: crate::client::DisambigOption| o.label@);
        let mut ps: Vec<Piece> = Vec::new();
        put_nl(&mut ps);
        let t = cat(&cat2(&chars_of("🔀  "), &chars_of(article.title.as_str())), " — disambiguation");
        put_styled(&mut ps, Role::Title, &t);
        put_nl(&mut ps);
        put_styled(&mut ps, Role::Separator, &self.sep_line());
        put_nl(&mut ps);
        put_styled(&mut ps, Role::Dim, &chars_of("  This page has multiple meanings. Choose one:"));
        put_nl(&mut ps);
        put_nl(&mut ps);
        let ghost head = views(ps@);
        let mut i: usize = 0;
        while i < opts.len()
            invariant
                0 <= i <= opts@.len(),
                labels == opts@.map_values(|o: crate::client::DisambigOption| o.label@),
                views(ps@) == head + option_entries(labels.take(i as int)),
            decreases opts.len() - i,
        {
            let ghost p1 = views(ps@);
            put_text(&mut ps, &chars_of("  "));
            let idx = cat(&cat2(&chars_of("["), &decimal_exec((i + 1) as u64)), "]");
            put_styled(&mut ps, Role::ResultIndex, &idx);
            put_text(&mut ps, &chars_of(" "));
            put_styled(&mut ps, Role::ResultSnippet, &chars_of(opts[i].label.as_str()));
            put_nl(&mut ps);
            proof {
                let t1 = labels.take(i + 1);
                assert(t1.drop_last() =~= labels.take(i as int));
                assert(t1.last() == opts@[i as int].label@);
                assert(t1.len() == i + 1);
                assert(views(ps@) =~= head + option_entries(t1));
            }
            i = i + 1;
        }
        assert(labels.take(opts.len() as int) =~= labels);
        let ghost body = views(ps@);
        put_nl(&mut ps);
        put_text(&mut ps, &chars_of("  "));
        put_styled(&mut ps, Role::ResultIndex, &chars_of("[0]"));
        put_text(&mut ps, &chars_of(" "));
        put_styled(&mut ps, Role::Dim, &chars_of("quit / go back"));
        put_nl(&mut ps);
        put_nl(&mut ps);
        assert(views(ps@) =~= disambiguation_layout(self@, article.title@, labels));
        ps
    }

    /// The pieces of an article's category listing.
    pub fn categories_pieces(&self, article: &Article) -> (ps: Vec<Piece>)
        ensures
            views(ps@) == categories_layout(article.title@, texts(article.categories@)),
    {
        let ghost cv = texts(article.categories@);
        let mut ps: Vec<Piece> = Vec::new();
        put_nl(&mut ps);
        put_styled(&mut ps, Role::Title, &cat2(&chars_of("🏷️  Categories — "), &chars_of(article.title.as_str())));
        put_nl(&mut ps);
        put_styled(&mut ps, Role::Separator, &repeat_exec(&chars_of("─"), 60));
        put_nl(&mut ps);
        let ghost head = views(ps@);
        let cats = &article.categories;
        if cats.len() == 0 {
            put_styled(&mut ps, Role::Dim, &chars_of("  (none found)"));
            put_nl(&mut ps);
        } else {
            let mut i: usize = 0;
            while i < cats.len()
                invariant
                    0 <= i <= cats@.len(),
                    cv == texts(cats@),
                    views(ps@) == head + category_entries(cv.take(i as int)),
                decreases cats.len() - i,
            {
                put_text(&mut ps, &chars_of("  "));
                put_styled(&mut ps, Role::ResultIndex, &chars_of("•"));
                put_text(&mut ps, &chars_of(" "));
                put_styled(&mut ps, Role::Body, &chars_of(cats[i].as_str()));
                put_nl(&mut ps);
                proof {
                    let t1 = cv.take(i + 1);
                    assert(t1.drop_last() =~= cv.take(i as int));
                    assert(t1.last() == cats@[i as int]@);
                    assert(views(ps@) =~= head + category_entries(t1));
                }
                i = i + 1;
            }
            assert(cv.take(cats.len() as int) =~= cv);
        }
        put_nl(&mut ps);
        assert(views(ps@) =~= categories_layout(article.title@, cv));
        ps
    }

    /// Render pieces with this renderer's theme, where every color they use
    /// passes the hex check; `None` where one does not (showing them would
    /// panic).
    pub fn try_render(&self, ps: &Vec<Piece>) -> (r: Option<String>)
        ensures
            match r {
                Some(s) => colors_ok(self@.theme, views(ps@)) && renders(
                    self@.theme,
                    views(ps@),
                    s@,
                ),
                None => !colors_ok(self@.theme, views(ps@)),
            },
    {
        if can_render(&self.theme, ps) {
            Some(render(&self.theme, ps))
        } else {
            None
        }
    }
}

} // verus!

verus! {

// ─── Laws ────────────────────────────────────────────────────────────────────

proof fn lemma_concat_append(a: Seq<Seq<char>>, b: Seq<Seq<char>>)
    ensures
        concat(a + b) == concat(a) + concat(b),
    decreases b.len(),
{
    if b.len() == 0 {
        assert(a + b =~= a);
        assert(concat(a) + Seq::<char>::empty() =~= concat(a));
    } else {
        lemma_concat_append(a, b.drop_last());
        assert((a + b).drop_last() =~= a + b.drop_last());
        assert(concat(a) + concat(b.drop_last()) + b.last() =~= concat(a) + (concat(b.drop_last())
            + b.last()));
    }
}

proof fn lemma_concat_part(parts: Seq<Seq<char>>, k: int)
    requires
        0 <= k < parts.len(),
    ensures
        contains(concat(parts), parts[k]),
{
    let pre = parts.take(k);
    let rest = parts.skip(k + 1);
    assert(parts =~= pre.push(parts[k]) + rest);
    lemma_concat_append(pre.push(parts[k]), rest);
    assert(pre.push(parts[k]).drop_last() =~= pre);
    let c = concat(parts);
    let i = concat(pre).len() as int;
    assert(c =~= concat(pre) + parts[k] + concat(rest));
    assert(c.subrange(i, i + parts[k].len()) =~= parts[k]);
    assert(occurs_at(c, parts[k], i));
}

proof fn lemma_contains_trans(a: Seq<char>, b: Seq<char>, c: Seq<char>)
    requires
        contains(a, b),
        contains(b, c),
    ensures
        contains(a, c),
{
    let i = choose|i: int| occurs_at(a, b, i);
    let j = choose|j: int| occurs_at(b, c, j);
    assert(a.subrange(i + j, i + j + c.len()) =~= b.subrange(j, j + c.len()));
    assert(occurs_at(a, c, i + j));
}

proof fn lemma_replace_absent(s: Seq<char>, from: Seq<char>, to: Seq<char>)
    requires
        from.len() > 0,
        !contains(s, from),
    ensures
        crate::text::replace(s, from, to) == s,
    decreases s.len(),
{
    if s.len() >= from.len() {
        assert(s.subrange(0, from.len() as int) != from) by {
            if s.subrange(0, from.len() as int) == from {
                assert(occurs_at(s, from, 0));
            }
        }
        let t = s.drop_first();
        assert(!contains(t, from)) by {
            if contains(t, from) {
                let i = choose|i: int| occurs_at(t, from, i);
                assert(s.subrange(i + 1, i + 1 + from.len()) =~= t.subrange(i, i + from.len()));
                assert(occurs_at(s, from, i + 1));
            }
        }
        lemma_replace_absent(t, from, to);
        assert(seq![s[0]] + t =~= s);
    }
}

proof fn lemma_shows_contains(p: crate::theme::PaintView, out: Seq<char>)
    requires
        shows(p, out),
        !contains(p.text, crate::theme::ansi_reset()),
    ensures
        contains(out, p.text),
{
    if out == p.text {
        assert(occurs_at(out, p.text, 0)) by {
            assert(out.subrange(0, out.len() as int) =~= out);
        }
    } else {
        let (pre, inner) = choose|pre: Seq<char>, inner: Seq<char>|
            crate::theme::style_or_nothing(pre) && crate::theme::style_or_nothing(inner) && out
                == pre + crate::text::replace(
                p.text,
                crate::theme::ansi_reset(),
                crate::theme::ansi_reset() + inner,
            ) + crate::theme::ansi_reset();
        lemma_replace_absent(p.text, crate::theme::ansi_reset(), crate::theme::ansi_reset() + inner);
        assert(out.subrange(pre.len() as int, (pre.len() + p.text.len()) as int) =~= p.text);
        assert(occurs_at(out, p.text, pre.len() as int));
    }
}

proof fn lemma_no_esc_no_reset(s: Seq<char>)
    requires
        !has_char(s, '\x1B'),
    ensures
        !contains(s, crate::theme::ansi_reset()),
{
    if contains(s, crate::theme::ansi_reset()) {
        let i = choose|i: int| occurs_at(s, crate::theme::ansi_reset(), i);
        assert(s.subrange(i, i + 4)[0] == '\x1B');
        assert(s[i] == '\x1B');
    }
}

proof fn lemma_contains_suffix(a: Seq<char>, b: Seq<char>)
    ensures
        contains(a + b, b),
{
    assert((a + b).subrange(a.len() as int, (a.len() + b.len()) as int) =~= b);
    assert(occurs_at(a + b, b, a.len() as int));
}

/// A built-in theme colors every role: whatever pieces are shown with it,
/// every color they use passes the hex check, so rendering never refuses.
pub proof fn law_builtin_themes_render_everything(name: Seq<char>, ps: Seq<PieceView>)
    ensures
        builtin_palette(name) matches Some(p) ==> colors_ok(p, ps),
{
    crate::theme::law_builtin_colors_are_valid(name);
    if let Some(p) = builtin_palette(name) {
        assert forall|i: int| 0 <= i < ps.len() implies (#[trigger] ps[i] matches PieceView::Styled(
            r,
            _,
        ) ==> hex_ok(p[role_field(r)])) by {
            if let PieceView::Styled(r, _) = ps[i] {
                assert(0 <= role_field(r) < 15);
                assert(hex_color(p[role_field(r)]) is Some);
            }
        }
    }
}

/// The theme list marks a built-in theme as active when the renderer shows
/// that very theme.
pub proof fn law_themes_list_marks_builtin_theme(name: Seq<char>)
    ensures
        builtin_palette(name) matches Some(p) ==> theme_name_of(p[0]) == name,
{
    reveal_strlit("dark");
    reveal_strlit("light");
    reveal_strlit("solarized");
    reveal_strlit("nord");
    reveal_strlit("dracula");
    reveal_strlit("#61AFEF");
    reveal_strlit("#005F87");
    reveal_strlit("#268BD2");
    reveal_strlit("#88C0D0");
    reveal_strlit("#8BE9FD");
    if name == "dark"@ {
        assert(dark_palette()[0] == "#61AFEF"@);
        assert("#61AFEF"@[1] != "#88C0D0"@[1] && "#61AFEF"@[1] != "#268BD2"@[1]);
        assert("#61AFEF"@[1] != "#8BE9FD"@[1] && "#61AFEF"@[1] != "#005F87"@[1]);
    } else if name == "light"@ {
        assert(light_palette()[0] == "#005F87"@);
        assert("#005F87"@[1] != "#88C0D0"@[1] && "#005F87"@[1] != "#268BD2"@[1]);
        assert("#005F87"@[1] != "#8BE9FD"@[1]);
        assert("light"@[0] != "dark"@[0]);
    } else if name == "solarized"@ {
        assert(solarized_palette()[0] == "#268BD2"@);
        assert("#268BD2"@[1] != "#88C0D0"@[1]);
        assert("solarized"@[0] != "dark"@[0] && "solarized"@[0] != "light"@[0]);
    } else if name == "nord"@ {
        assert(nord_palette()[0] == "#88C0D0"@);
        assert("nord"@[0] != "dark"@[0] && "nord"@[0] != "light"@[0] && "nord"@[0] != "solarized"@[0]);
    } else if name == "dracula"@ {
        assert(dracula_palette()[0] == "#8BE9FD"@);
        assert("#8BE9FD"@[2] != "#88C0D0"@[2] && "#8BE9FD"@[1] != "#268BD2"@[1]);
        assert("dracula"@[1] != "dark"@[1] && "dracula"@[0] != "light"@[0]);
        assert("dracula"@[0] != "solarized"@[0] && "dracula"@[0] != "nord"@[0]);
    }
}

/// A rendered article shows its title: whatever the terminal's coloring,
/// the title (when it holds no escape character) occurs in the output.
pub proof fn law_article_output_shows_title(
    rv: RendererView,
    title: Seq<char>,
    url: Seq<char>,
    content: Seq<char>,
    categories: Seq<Seq<char>>,
    out: Seq<char>,
)
    requires
        renders(rv.theme, article_layout(rv, title, url, content, categories), out),
        !has_char(title, '\x1B'),
    ensures
        contains(out, title),
{
    let ps = article_layout(rv, title, url, content, categories);
    let parts = choose|parts: Seq<Seq<char>>|
        parts.len() == ps.len() && (forall|i: int|
            0 <= i < ps.len() ==> piece_shows(rv.theme, ps[i], #[trigger] parts[i])) && out
            == concat(parts);
    let text = emoji(rv, "📖"@) + " "@ + title;
    assert(ps[1] == PieceView::Styled(Role::Title, text));
    assert(piece_shows(rv.theme, ps[1], parts[1]));
    assert(!has_char(text, '\x1B')) by {
        reveal_strlit("📖");
        reveal_strlit(" ");
        if has_char(text, '\x1B') {
            let i = choose|i: int| 0 <= i < text.len() && text[i] == '\x1B';
            let pre = emoji(rv, "📖"@) + " "@;
            if i >= pre.len() {
                assert(title[i - pre.len()] == '\x1B');
            }
        }
    }
    lemma_no_esc_no_reset(text);
    lemma_shows_contains(role_paint(rv.theme, Role::Title, text), parts[1]);
    lemma_concat_part(parts, 1);
    lemma_contains_suffix(emoji(rv, "📖"@) + " "@, title);
    lemma_contains_trans(out, parts[1], text);
    lemma_contains_trans(out, text, title);
}

} // verus!
