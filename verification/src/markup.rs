//! The markup that Wikipedia text carries: HTML tags and entities in search
//! snippets, `== Section ==` headings in plain-text extracts, and
//! `[[links]]` / `{{templates}}` in wikitext.
//!
//! Each form is recognised exactly as the corresponding regular expression
//! does under leftmost-first matching (greedy `*`/`+`, lazy `+?`, `\s` the
//! Unicode `White_Space` property, `.` any character but `\n`); the spec
//! functions below spell that search out.

use vstd::prelude::*;

use crate::text::{
    chars_of, extend_chars, occurs_at, occurs_at_exec,
    lemma_scan2, scan2, scan2_exec, skip_ws, skip_ws_exec, slice_chars, trim,
};

verus! {

// ─── HTML ────────────────────────────────────────────────────────────────────

/// Where a tag `<[^>]+>` that starts at `i` ends (one past its `>`).
pub open spec fn tag_end(s: Seq<char>, i: int) -> Option<int> {
    if 0 <= i && i + 1 < s.len() && s[i] == '<' && s[i + 1] != '>' {
        let j = scan2(s, i + 1, '>', '>');
        if j < s.len() {
            Some(j + 1)
        } else {
            None
        }
    } else {
        None
    }
}

/// `s[i..]` with every tag `<[^>]+>` removed, scanning left to right.
pub open spec fn strip_tags_from(s: Seq<char>, i: int) -> Seq<char>
    decreases s.len() - i,
{
    if i < 0 || i >= s.len() {
        Seq::empty()
    } else {
        match tag_end(s, i) {
            Some(e) if e > i => strip_tags_from(s, e),
            _ => seq![s[i]] + strip_tags_from(s, i + 1),
        }
    }
}

/// The HTML entities that Wikipedia snippets use, with the text each one
/// stands for.
pub open spec fn entities() -> Seq<(Seq<char>, Seq<char>)> {
    seq![
        ("&amp;"@, "&"@),
        ("&lt;"@, "<"@),
        ("&gt;"@, ">"@),
        ("&quot;"@, "\""@),
        ("&#039;"@, "'"@),
        ("&#39;"@, "'"@),
        ("&nbsp;"@, " "@),
        ("&mdash;"@, "—"@),
        ("&ndash;"@, "–"@),
        ("&hellip;"@, "…"@),
        ("&laquo;"@, "«"@),
        ("&raquo;"@, "»"@),
    ]
}

/// The first entity of `entities()`, from the `k`-th on, that is written at
/// position `i` of `s`.
pub open spec fn entity_at(s: Seq<char>, i: int, k: int) -> Option<int>
    decreases entities().len() - k,
{
    if k < 0 || k >= entities().len() {
        None
    } else if occurs_at(s, entities()[k].0, i) {
        Some(k)
    } else {
        entity_at(s, i, k + 1)
    }
}

/// `s[i..]` with each entity replaced by the text it stands for, in one
/// pass from left to right: the text an entity yields is not read again.
pub open spec fn decode_from(s: Seq<char>, i: int) -> Seq<char>
    decreases s.len() - i,
{
    if i < 0 || i >= s.len() {
        Seq::empty()
    } else {
        match entity_at(s, i, 0) {
            Some(k) if 0 <= k < entities().len() && 0 < entities()[k].0.len() <= s.len() - i
                => entities()[k].1
                + decode_from(s, i + entities()[k].0.len()),
            _ => seq![s[i]] + decode_from(s, i + 1),
        }
    }
}

/// The HTML entities of `s` decoded.
pub open spec fn decode_entities(s: Seq<char>) -> Seq<char> {
    decode_from(s, 0)
}

proof fn lemma_entities_not_empty()
    ensures
        forall|k: int| 0 <= k < entities().len() ==> (#[trigger] entities()[k]).0.len() > 0,
{
    reveal_strlit("&amp;");
    reveal_strlit("&lt;");
    reveal_strlit("&gt;");
    reveal_strlit("&quot;");
    reveal_strlit("&#039;");
    reveal_strlit("&#39;");
    reveal_strlit("&nbsp;");
    reveal_strlit("&mdash;");
    reveal_strlit("&ndash;");
    reveal_strlit("&hellip;");
    reveal_strlit("&laquo;");
    reveal_strlit("&raquo;");
}

proof fn lemma_entity_at(s: Seq<char>, i: int, k: int)
    requires
        0 <= k,
    ensures
        entity_at(s, i, k) matches Some(j) ==> k <= j < entities().len() && occurs_at(
            s,
            entities()[j].0,
            i,
        ),
    decreases entities().len() - k,
{
    if k < entities().len() && !occurs_at(s, entities()[k].0, i) {
        lemma_entity_at(s, i, k + 1);
    }
}

/// Tags removed, then entities decoded.
pub open spec fn strip_html_spec(s: Seq<char>) -> Seq<char> {
    decode_entities(strip_tags_from(s, 0))
}

fn tag_end_exec(v: &[char], i: usize) -> (r: Option<usize>)
    requires
        i < v.len(),
    ensures
        match r {
            Some(e) => tag_end(v@, i as int) == Some(e as int) && e > i,
            None => tag_end(v@, i as int) is None,
        },
{
    if i + 1 < v.len() && v[i] == '<' && v[i + 1] != '>' {
        let j = scan2_exec(v, i + 1, '>', '>');
        if j < v.len() {
            Some(j + 1)
        } else {
            None
        }
    } else {
        None
    }
}

/// Removes every tag `<[^>]+>` from `v`.
pub fn strip_tags(v: &[char]) -> (r: Vec<char>)
    ensures
        r@ == strip_tags_from(v@, 0),
{
    let mut out: Vec<char> = Vec::new();
    let mut i: usize = 0;
    while i < v.len()
        invariant
            0 <= i <= v.len(),
            out@ + strip_tags_from(v@, i as int) == strip_tags_from(v@, 0),
        decreases v.len() - i,
    {
        match tag_end_exec(v, i) {
            Some(e) => {
                i = e;
            },
            None => {
                let ghost o0 = out@;
                out.push(v[i]);
                assert(out@ + strip_tags_from(v@, i + 1) =~= o0 + (seq![v@[i as int]]
                    + strip_tags_from(v@, i + 1)));
                i = i + 1;
            },
        }
    }
    assert(out@ + Seq::<char>::empty() =~= out@);
    out
}

/// The entities and their texts, as characters.
fn entity_table() -> (t: Vec<(Vec<char>, Vec<char>)>)
    ensures
        t@.map_values(|e: (Vec<char>, Vec<char>)| (e.0@, e.1@)) == entities(),
{
    let mut t: Vec<(Vec<char>, Vec<char>)> = Vec::new();
    t.push((chars_of("&amp;"), chars_of("&")));
    t.push((chars_of("&lt;"), chars_of("<")));
    t.push((chars_of("&gt;"), chars_of(">")));
    t.push((chars_of("&quot;"), chars_of("\"")));
    t.push((chars_of("&#039;"), chars_of("'")));
    t.push((chars_of("&#39;"), chars_of("'")));
    t.push((chars_of("&nbsp;"), chars_of(" ")));
    t.push((chars_of("&mdash;"), chars_of("—")));
    t.push((chars_of("&ndash;"), chars_of("–")));
    t.push((chars_of("&hellip;"), chars_of("…")));
    t.push((chars_of("&laquo;"), chars_of("«")));
    t.push((chars_of("&raquo;"), chars_of("»")));
    assert(t@.map_values(|e: (Vec<char>, Vec<char>)| (e.0@, e.1@)) =~= entities());
    t
}

/// `entity_at(v, i, 0)` computed with the table `t`.
fn entity_at_exec(v: &[char], i: usize, t: &Vec<(Vec<char>, Vec<char>)>) -> (r: Option<usize>)
    requires
        t@.map_values(|e: (Vec<char>, Vec<char>)| (e.0@, e.1@)) == entities(),
    ensures
        match r {
            Some(k) => entity_at(v@, i as int, 0) == Some(k as int),
            None => entity_at(v@, i as int, 0) is None,
        },
{
    let ghost tv = t@.map_values(|e: (Vec<char>, Vec<char>)| (e.0@, e.1@));
    let mut k: usize = 0;
    while k < t.len()
        invariant
            0 <= k <= t.len(),
            tv == t@.map_values(|e: (Vec<char>, Vec<char>)| (e.0@, e.1@)),
            tv == entities(),
            entity_at(v@, i as int, 0) == entity_at(v@, i as int, k as int),
        decreases t.len() - k,
    {
        assert(tv[k as int].0 == t@[k as int].0@);
        if occurs_at_exec(v, &t[k].0, i) {
            return Some(k);
        }
        k = k + 1;
    }
    None
}

/// Decodes the HTML entities that Wikipedia snippets use, in one pass.
pub fn decode_entities_exec(v: &[char]) -> (r: Vec<char>)
    ensures
        r@ == decode_entities(v@),
{
    let t = entity_table();
    let ghost tv = t@.map_values(|e: (Vec<char>, Vec<char>)| (e.0@, e.1@));
    proof {
        lemma_entities_not_empty();
    }
    let mut out: Vec<char> = Vec::new();
    let mut i: usize = 0;
    while i < v.len()
        invariant
            0 <= i <= v.len(),
            tv == t@.map_values(|e: (Vec<char>, Vec<char>)| (e.0@, e.1@)),
            tv == entities(),
            forall|k: int| 0 <= k < entities().len() ==> (#[trigger] entities()[k]).0.len() > 0,
            decode_from(v@, 0) == out@ + decode_from(v@, i as int),
        decreases v.len() - i,
    {
        match entity_at_exec(v, i, &t) {
            Some(k) => {
                proof {
                    lemma_entity_at(v@, i as int, 0);
                }
                assert(tv[k as int].0 == t@[k as int].0@);
                assert(tv[k as int].1 == t@[k as int].1@);
                let ghost o0 = out@;
                extend_chars(&mut out, &t[k].1);
                assert(out@ + decode_from(v@, i + t@[k as int].0@.len()) =~= o0 + decode_from(
                    v@,
                    i as int,
                ));
                i = i + t[k].0.len();
            },
            None => {
                let ghost o0 = out@;
                out.push(v[i]);
                assert(out@ + decode_from(v@, i + 1) =~= o0 + decode_from(v@, i as int));
                i = i + 1;
            },
        }
    }
    assert(out@ =~= out@ + decode_from(v@, i as int));
    out
}

// ─── Section headings ────────────────────────────────────────────────────────

/// `s[p..p+k]` are all `=`.
pub open spec fn eq_run(s: Seq<char>, p: int, k: int) -> bool {
    0 <= p && p + k <= s.len() && forall|j: int| p <= j < p + k ==> s[j] == '='
}

/// `p` is where a line starts (`^` in multi-line mode).
pub open spec fn at_line_start(s: Seq<char>, p: int) -> bool {
    p == 0 || (0 < p <= s.len() && s[p - 1] == '\n')
}

/// `p` is where a line ends (`$` in multi-line mode).
pub open spec fn at_line_end(s: Seq<char>, p: int) -> bool {
    p == s.len() || (0 <= p < s.len() && s[p] == '\n')
}

/// The closing part `\s*={k}$` matched from `e`: its end, if it matches.
pub open spec fn close_end(s: Seq<char>, e: int, k: int) -> Option<int> {
    let f = skip_ws(s, e);
    if eq_run(s, f, k) && at_line_end(s, f + k) {
        Some(f + k)
    } else {
        None
    }
}

/// The lazy `(.+?)` capture starting at `c0`, tried with ends `e, e+1, …, le`
/// (`le` the end of the line): the first end after which the closing part
/// matches, with the end of the whole match.
pub open spec fn lazy_capture(s: Seq<char>, e: int, le: int, k: int) -> Option<(int, int)>
    decreases le + 1 - e,
{
    if e > le {
        None
    } else {
        match close_end(s, e, k) {
            Some(end) => Some((e, end)),
            None => lazy_capture(s, e + 1, le, k),
        }
    }
}

/// The greedy `\s*` after the opening `=`s, tried with ends `w, w-1, …,
/// base`; for each, the capture that starts there.
pub open spec fn try_leading_ws(s: Seq<char>, base: int, w: int, k: int) -> Option<(int, int, int)>
    decreases w + 1 - base,
{
    if w < base {
        None
    } else {
        let le = scan2(s, w, '\n', '\n');
        match lazy_capture(s, w + 1, le, k) {
            Some((e, end)) => Some((w, e, end)),
            None => try_leading_ws(s, base, w - 1, k),
        }
    }
}

/// The match of `^={k}\s*(.+?)\s*={k}$` that starts at `p`: the capture's
/// start and end and the end of the match.
pub open spec fn heading_at(s: Seq<char>, p: int, k: int) -> Option<(int, int, int)> {
    if at_line_start(s, p) && eq_run(s, p, k) {
        try_leading_ws(s, p + k, skip_ws(s, p + k), k)
    } else {
        None
    }
}

/// `s[i..]` with each level-`k` heading replaced by `prefix` and its
/// capture (`Regex::replace_all`).
pub open spec fn headings_from(s: Seq<char>, i: int, k: int, prefix: Seq<char>) -> Seq<char>
    decreases s.len() - i,
{
    if i < 0 || i >= s.len() {
        Seq::empty()
    } else {
        match heading_at(s, i, k) {
            Some((c0, c1, end)) if i < end <= s.len() => prefix + s.subrange(c0, c1) + headings_from(
                s,
                end,
                k,
                prefix,
            ),
            _ => seq![s[i]] + headings_from(s, i + 1, k, prefix),
        }
    }
}

/// The first position at or after `i` that is not `\n`, or `s.len()`.
pub open spec fn skip_newlines(s: Seq<char>, i: int) -> int
    decreases s.len() - i,
{
    if i < 0 || i >= s.len() || s[i] != '\n' {
        if i < 0 || i >= s.len() {
            s.len() as int
        } else {
            i
        }
    } else {
        skip_newlines(s, i + 1)
    }
}

/// `s[i..]` with every run of three or more `\n` replaced by two.
pub open spec fn collapse_from(s: Seq<char>, i: int) -> Seq<char>
    decreases s.len() - i,
{
    if i < 0 || i >= s.len() {
        Seq::empty()
    } else {
        let j = skip_newlines(s, i);
        if j - i >= 3 && j <= s.len() {
            seq!['\n', '\n'] + collapse_from(s, j)
        } else {
            seq![s[i]] + collapse_from(s, i + 1)
        }
    }
}

/// `== Section ==` headings of levels 4, 3 and 2 (in that order) turned into
/// `####`, `###`, `##` markers, runs of blank lines collapsed, and the result
/// trimmed.
pub open spec fn sections_to_markdown(s: Seq<char>) -> Seq<char> {
    let t4 = headings_from(s, 0, 4, "#### "@);
    let t3 = headings_from(t4, 0, 3, "### "@);
    let t2 = headings_from(t3, 0, 2, "## "@);
    trim(collapse_from(t2, 0))
}

fn eq_run_exec(v: &[char], p: usize, k: usize) -> (b: bool)
    requires
        k <= 4,
    ensures
        b == eq_run(v@, p as int, k as int),
{
    if p > v.len() || k > v.len() - p {
        return false;
    }
    let mut j = p;
    while j < p + k
        invariant
            p <= j <= p + k <= v.len(),
            forall|m: int| p <= m < j ==> v@[m] == '=',
        decreases p + k - j,
    {
        if v[j] != '=' {
            return false;
        }
        j = j + 1;
    }
    true
}

fn close_end_exec(v: &[char], e: usize, k: usize) -> (r: Option<usize>)
    requires
        e <= v.len(),
        1 <= k <= 4,
    ensures
        match r {
            Some(end) => close_end(v@, e as int, k as int) == Some(end as int) && end >= e + k
                && end <= v.len(),
            None => close_end(v@, e as int, k as int) is None,
        },
{
    let f = skip_ws_exec(v, e);
    if eq_run_exec(v, f, k) && (f + k == v.len() || v[f + k] == '\n') {
        Some(f + k)
    } else {
        None
    }
}

fn lazy_capture_exec(v: &[char], start: usize, le: usize, k: usize) -> (r: Option<(usize, usize)>)
    requires
        start <= le + 1,
        le <= v.len(),
        1 <= k <= 4,
    ensures
        match r {
            Some((e, end)) => lazy_capture(v@, start as int, le as int, k as int) == Some(
                (e as int, end as int),
            ) && start <= e <= le && end >= e + k && end <= v.len(),
            None => lazy_capture(v@, start as int, le as int, k as int) is None,
        },
{
    if start > le {
        return None;
    }
    let mut e = start;
    loop
        invariant
            start <= e <= le,
            le <= v.len(),
            1 <= k <= 4,
            lazy_capture(v@, start as int, le as int, k as int) == lazy_capture(
                v@,
                e as int,
                le as int,
                k as int,
            ),
        decreases le - e,
    {
        match close_end_exec(v, e, k) {
            Some(end) => {
                return Some((e, end));
            },
            None => {},
        }
        if e == le {
            assert(lazy_capture(v@, e + 1, le as int, k as int) is None);
            return None;
        }
        e = e + 1;
    }
}

fn heading_at_exec(v: &[char], p: usize, k: usize) -> (r: Option<(usize, usize, usize)>)
    requires
        p < v.len(),
        1 <= k <= 4,
    ensures
        match r {
            Some((c0, c1, end)) => heading_at(v@, p as int, k as int) == Some(
                (c0 as int, c1 as int, end as int),
            ) && p + k <= c0 < c1 <= end <= v.len() && end > p,
            None => heading_at(v@, p as int, k as int) is None,
        },
{
    if !((p == 0 || v[p - 1] == '\n') && eq_run_exec(v, p, k)) {
        return None;
    }
    let base = p + k;
    let mut w = skip_ws_exec(v, base);
    loop
        invariant
            base <= w <= v.len(),
            p + k == base,
            1 <= k <= 4,
            p < v.len(),
            heading_at(v@, p as int, k as int) == try_leading_ws(
                v@,
                base as int,
                w as int,
                k as int,
            ),
        decreases w - base,
    {
        let le = scan2_exec(v, w, '\n', '\n');
        if w < le {
            match lazy_capture_exec(v, w + 1, le, k) {
                Some((e, end)) => {
                    return Some((w, e, end));
                },
                None => {},
            }
        }
        if w == base {
            assert(try_leading_ws(v@, base as int, w - 1, k as int) is None);
            return None;
        }
        w = w - 1;
    }
}

/// Replaces each level-`k` heading of `v` by `prefix` and its title.
fn replace_headings(v: &[char], k: usize, prefix: &[char]) -> (r: Vec<char>)
    requires
        1 <= k <= 4,
    ensures
        r@ == headings_from(v@, 0, k as int, prefix@),
{
    let mut out: Vec<char> = Vec::new();
    let mut i: usize = 0;
    while i < v.len()
        invariant
            0 <= i <= v.len(),
            1 <= k <= 4,
            out@ + headings_from(v@, i as int, k as int, prefix@) == headings_from(
                v@,
                0,
                k as int,
                prefix@,
            ),
        decreases v.len() - i,
    {
        let ghost o0 = out@;
        match heading_at_exec(v, i, k) {
            Some((c0, c1, end)) => {
                extend_chars(&mut out, prefix);
                let cap = slice_chars(v, c0, c1);
                extend_chars(&mut out, &cap);
                assert(out@ + headings_from(v@, end as int, k as int, prefix@) =~= o0 + (prefix@
                    + v@.subrange(c0 as int, c1 as int) + headings_from(
                    v@,
                    end as int,
                    k as int,
                    prefix@,
                )));
                i = end;
            },
            None => {
                out.push(v[i]);
                assert(out@ + headings_from(v@, i + 1, k as int, prefix@) =~= o0 + (seq![
                    v@[i as int],
                ] + headings_from(v@, i + 1, k as int, prefix@)));
                i = i + 1;
            },
        }
    }
    assert(out@ + Seq::<char>::empty() =~= out@);
    out
}

fn skip_newlines_exec(v: &[char], i: usize) -> (r: usize)
    requires
        i < v.len(),
    ensures
        r == skip_newlines(v@, i as int),
        i <= r <= v.len(),
{
    let mut j = i;
    while j < v.len() && v[j] == '\n'
        invariant
            i <= j <= v.len(),
            skip_newlines(v@, i as int) == skip_newlines(v@, j as int),
        decreases v.len() - j,
    {
        j = j + 1;
    }
    j
}

/// Replaces every run of three or more `\n` in `v` by two.
fn collapse_blank_lines(v: &[char]) -> (r: Vec<char>)
    ensures
        r@ == collapse_from(v@, 0),
{
    let mut out: Vec<char> = Vec::new();
    let mut i: usize = 0;
    while i < v.len()
        invariant
            0 <= i <= v.len(),
            out@ + collapse_from(v@, i as int) == collapse_from(v@, 0),
        decreases v.len() - i,
    {
        let ghost o0 = out@;
        let j = skip_newlines_exec(v, i);
        if j - i >= 3 {
            out.push('\n');
            out.push('\n');
            assert(out@ + collapse_from(v@, j as int) =~= o0 + (seq!['\n', '\n'] + collapse_from(
                v@,
                j as int,
            )));
            i = j;
        } else {
            out.push(v[i]);
            assert(out@ + collapse_from(v@, i + 1) =~= o0 + (seq![v@[i as int]] + collapse_from(
                v@,
                i + 1,
            )));
            i = i + 1;
        }
    }
    assert(out@ + Seq::<char>::empty() =~= out@);
    out
}

/// Converts `== Section ==` headings to `## Section` markers, collapses runs
/// of blank lines and trims the result.
pub fn sections_to_markdown_exec(v: &[char]) -> (r: Vec<char>)
    ensures
        r@ == sections_to_markdown(v@),
{
    let t4 = replace_headings(v, 4, &chars_of("#### "));
    let t3 = replace_headings(&t4, 3, &chars_of("### "));
    let t2 = replace_headings(&t3, 2, &chars_of("## "));
    let c = collapse_blank_lines(&t2);
    crate::text::trim_exec(&c)
}


// ─── Wikitext links and templates ────────────────────────────────────────────

/// The match of `\[\[([^\]|]+)(?:\|[^\]]*)?\]\]` that starts at `i`: the
/// end of its capture (the link target runs from `i + 2` to it) and the end
/// of the match.
pub open spec fn link_at(s: Seq<char>, i: int) -> Option<(int, int)> {
    if 0 <= i && i + 1 < s.len() && s[i] == '[' && s[i + 1] == '[' {
        let k = scan2(s, i + 2, ']', '|');
        if i + 2 < k && k < s.len() {
            if s[k] == ']' {
                if k + 1 < s.len() && s[k + 1] == ']' {
                    Some((k, k + 2))
                } else {
                    None
                }
            } else {
                let j = scan2(s, k + 1, ']', ']');
                if j + 1 < s.len() && s[j + 1] == ']' {
                    Some((k, j + 2))
                } else {
                    None
                }
            }
        } else {
            None
        }
    } else {
        None
    }
}

/// The leftmost position at or after `i` where a link starts.
pub open spec fn first_link(s: Seq<char>, i: int) -> Option<int>
    decreases s.len() - i,
{
    if i < 0 || i >= s.len() {
        None
    } else if link_at(s, i) is Some {
        Some(i)
    } else {
        first_link(s, i + 1)
    }
}

pub proof fn lemma_first_link(s: Seq<char>, j: int)
    requires
        0 <= j,
    ensures
        first_link(s, j) matches Some(i) ==> j <= i && link_at(s, i) is Some,
    decreases s.len() - j,
{
    if j < s.len() && link_at(s, j) is None {
        lemma_first_link(s, j + 1);
    }
}

/// Where a delimited span `oo[^c]*cc` that starts at `i` ends (`o`, `c` the
/// opening and closing characters): `\[\[[^\]]*\]\]` and `\{\{[^}]*\}\}`.
pub open spec fn span_at(s: Seq<char>, i: int, o: char, c: char) -> Option<int> {
    if 0 <= i && i + 1 < s.len() && s[i] == o && s[i + 1] == o {
        let j = scan2(s, i + 2, c, c);
        if j + 1 < s.len() && s[j + 1] == c {
            Some(j + 2)
        } else {
            None
        }
    } else {
        None
    }
}

/// `s` without all its leading `c` (`str::trim_start_matches`).
pub open spec fn strip_leading(s: Seq<char>, c: char) -> Seq<char>
    decreases s.len(),
{
    if s.len() > 0 && s[0] == c {
        strip_leading(s.drop_first(), c)
    } else {
        s
    }
}

/// `s` without all its trailing `c` (`str::trim_end_matches`).
pub open spec fn strip_trailing(s: Seq<char>, c: char) -> Seq<char>
    decreases s.len(),
{
    if s.len() > 0 && s.last() == c {
        strip_trailing(s.drop_last(), c)
    } else {
        s
    }
}

/// The readable text of a link or template `m`: its brackets removed and,
/// where it has a `|`, only what follows the first one.
pub open spec fn markup_text(m: Seq<char>) -> Seq<char> {
    let c = strip_trailing(strip_leading(m, '['), ']');
    let p = scan2(c, 0, '|', '|');
    if p < c.len() {
        c.skip(p + 1)
    } else {
        c
    }
}

/// `s[i..]` with each `[[link]]` and `{{template}}` replaced by its readable
/// text, scanning left to right. (Runs of two or more `'` are matched too
/// and replaced by themselves, so they leave the text as it is.)
pub open spec fn strip_markup_from(s: Seq<char>, i: int) -> Seq<char>
    decreases s.len() - i,
{
    if i < 0 || i >= s.len() {
        Seq::empty()
    } else {
        match span_at(s, i, '[', ']') {
            Some(e) if i < e <= s.len() => markup_text(s.subrange(i, e)) + strip_markup_from(s, e),
            _ => match span_at(s, i, '{', '}') {
                Some(e) if i < e <= s.len() => markup_text(s.subrange(i, e)) + strip_markup_from(
                    s,
                    e,
                ),
                _ => seq![s[i]] + strip_markup_from(s, i + 1),
            },
        }
    }
}

/// `link_at` computed.
pub fn link_at_exec(v: &[char], i: usize) -> (r: Option<(usize, usize)>)
    requires
        i < v.len(),
    ensures
        match r {
            Some((k, e)) => link_at(v@, i as int) == Some((k as int, e as int)) && i + 2 < k
                && k < e <= v.len(),
            None => link_at(v@, i as int) is None,
        },
{
    if i + 1 < v.len() && v[i] == '[' && v[i + 1] == '[' {
        let k = scan2_exec(v, i + 2, ']', '|');
        if i + 2 < k && k < v.len() {
            if v[k] == ']' {
                if k + 1 < v.len() && v[k + 1] == ']' {
                    Some((k, k + 2))
                } else {
                    None
                }
            } else {
                let j = scan2_exec(v, k + 1, ']', ']');
                if j < v.len() && j + 1 < v.len() && v[j + 1] == ']' {
                    Some((k, j + 2))
                } else {
                    None
                }
            }
        } else {
            None
        }
    } else {
        None
    }
}

/// `first_link` computed.
pub fn first_link_exec(v: &[char]) -> (r: Option<usize>)
    ensures
        match r {
            Some(i) => first_link(v@, 0) == Some(i as int) && i < v.len(),
            None => first_link(v@, 0) is None,
        },
{
    let mut i: usize = 0;
    while i < v.len()
        invariant
            0 <= i <= v.len(),
            first_link(v@, 0) == first_link(v@, i as int),
        decreases v.len() - i,
    {
        if link_at_exec(v, i).is_some() {
            return Some(i);
        }
        i = i + 1;
    }
    None
}

fn span_at_exec(v: &[char], i: usize, o: char, c: char) -> (r: Option<usize>)
    requires
        i < v.len(),
    ensures
        match r {
            Some(e) => span_at(v@, i as int, o, c) == Some(e as int) && i < e <= v.len(),
            None => span_at(v@, i as int, o, c) is None,
        },
{
    if i + 1 < v.len() && v[i] == o && v[i + 1] == o {
        let j = scan2_exec(v, i + 2, c, c);
        if j < v.len() && j + 1 < v.len() && v[j + 1] == c {
            Some(j + 2)
        } else {
            None
        }
    } else {
        None
    }
}

/// `str::trim_start_matches` with a character.
pub fn strip_leading_exec(v: &[char], c: char) -> (r: Vec<char>)
    ensures
        r@ == strip_leading(v@, c),
{
    let mut i: usize = 0;
    assert(v@.skip(0) =~= v@);
    while i < v.len() && v[i] == c
        invariant
            0 <= i <= v.len(),
            strip_leading(v@, c) == strip_leading(v@.skip(i as int), c),
        decreases v.len() - i,
    {
        assert(v@.skip(i as int).drop_first() =~= v@.skip(i + 1));
        i = i + 1;
    }
    slice_chars(v, i, v.len())
}

/// `str::trim_end_matches` with a character.
pub fn strip_trailing_exec(v: &[char], c: char) -> (r: Vec<char>)
    ensures
        r@ == strip_trailing(v@, c),
{
    let mut j: usize = v.len();
    assert(v@.take(j as int) =~= v@);
    while j > 0 && v[j - 1] == c
        invariant
            0 <= j <= v.len(),
            strip_trailing(v@, c) == strip_trailing(v@.take(j as int), c),
        decreases j,
    {
        assert(v@.take(j as int).drop_last() =~= v@.take(j - 1));
        j = j - 1;
    }
    slice_chars(v, 0, j)
}

fn markup_text_exec(m: &[char]) -> (r: Vec<char>)
    ensures
        r@ == markup_text(m@),
{
    let a = strip_leading_exec(m, '[');
    let c = strip_trailing_exec(&a, ']');
    let p = scan2_exec(&c, 0, '|', '|');
    if p < c.len() {
        let r = slice_chars(&c, p + 1, c.len());
        assert(r@ =~= c@.skip(p + 1));
        r
    } else {
        c
    }
}

/// Replaces each `[[link]]` and `{{template}}` of `v` by its readable text.
pub fn strip_markup(v: &[char]) -> (r: Vec<char>)
    ensures
        r@ == strip_markup_from(v@, 0),
{
    let mut out: Vec<char> = Vec::new();
    let mut i: usize = 0;
    while i < v.len()
        invariant
            0 <= i <= v.len(),
            out@ + strip_markup_from(v@, i as int) == strip_markup_from(v@, 0),
        decreases v.len() - i,
    {
        let ghost o0 = out@;
        match span_at_exec(v, i, '[', ']') {
            Some(e) => {
                let m = slice_chars(v, i, e);
                let t = markup_text_exec(&m);
                extend_chars(&mut out, &t);
                assert(out@ + strip_markup_from(v@, e as int) =~= o0 + (t@ + strip_markup_from(
                    v@,
                    e as int,
                )));
                i = e;
            },
            None => match span_at_exec(v, i, '{', '}') {
                Some(e) => {
                    let m = slice_chars(v, i, e);
                    let t = markup_text_exec(&m);
                    extend_chars(&mut out, &t);
                    assert(out@ + strip_markup_from(v@, e as int) =~= o0 + (t@
                        + strip_markup_from(v@, e as int)));
                    i = e;
                },
                None => {
                    out.push(v[i]);
                    assert(out@ + strip_markup_from(v@, i + 1) =~= o0 + (seq![v@[i as int]]
                        + strip_markup_from(v@, i + 1)));
                    i = i + 1;
                },
            },
        }
    }
    assert(out@ + Seq::<char>::empty() =~= out@);
    out
}

} // verus!

verus! {

// ─── Laws ────────────────────────────────────────────────────────────────────

/// A tag is `<`, one or more characters other than `>`, then `>`: wherever
/// one starts, the whole of it is removed, whatever characters (quotes
/// included) it holds.
pub proof fn law_tags_are_removed(s: Seq<char>, i: int, k: int)
    requires
        0 <= i,
        i + 1 < k < s.len(),
        s[i] == '<',
        s[k] == '>',
        forall|j: int| i < j < k ==> s[j] != '>',
    ensures
        tag_end(s, i) == Some(k + 1),
        strip_tags_from(s, i) == strip_tags_from(s, k + 1),
{
    lemma_scan2(s, i + 1, '>', '>');
    let m = scan2(s, i + 1, '>', '>');
    if m < k {
        assert(s[m] != '>');
    }
    if m > k {
        assert(s[k] != '>');
    }
    assert(m == k);
}

/// A `<` that no `>` follows starts no tag: it is kept.
pub proof fn law_unclosed_bracket_is_kept(s: Seq<char>, i: int)
    requires
        0 <= i < s.len(),
        s[i] == '<',
        forall|j: int| i < j < s.len() ==> s[j] != '>',
    ensures
        tag_end(s, i) is None,
        strip_tags_from(s, i) == seq!['<'] + strip_tags_from(s, i + 1),
{
    if i + 1 < s.len() {
        lemma_scan2(s, i + 1, '>', '>');
        let m = scan2(s, i + 1, '>', '>');
        if m < s.len() {
            assert(s[m] != '>');
        }
    }
}

proof fn lemma_first_link_from(s: Seq<char>, i: int)
    requires
        0 <= i,
    ensures
        first_link(s, i) matches Some(p) ==> i <= p < s.len() && link_at(s, p) is Some && forall|
            j: int,
        | i <= j < p ==> link_at(s, j) is None,
        first_link(s, i) is None ==> forall|j: int| i <= j ==> link_at(s, j) is None,
    decreases s.len() - i,
{
    if i < s.len() && link_at(s, i) is None {
        lemma_first_link_from(s, i + 1);
        assert forall|j: int| i <= j && (first_link(s, i) is None || j < first_link(s, i)->0)
            implies link_at(s, j) is None by {
            if j > i {
            }
        }
    }
}

/// The link an option is read from is the leftmost one: `first_link` finds
/// a position where a link starts, no link starts before it, and it finds
/// none only where no link starts at all.
pub proof fn law_first_link_is_leftmost(s: Seq<char>)
    ensures
        first_link(s, 0) matches Some(p) ==> 0 <= p < s.len() && link_at(s, p) is Some && forall|
            j: int,
        | 0 <= j < p ==> link_at(s, j) is None,
        forall|j: int| #[trigger] link_at(s, j) is Some ==> (first_link(s, 0) is Some && first_link(
            s,
            0,
        )->0 <= j),
{
    lemma_first_link_from(s, 0);
    assert forall|j: int| #[trigger] link_at(s, j) is Some implies (first_link(s, 0) is Some
        && first_link(s, 0)->0 <= j) by {
        assert(0 <= j);
    }
}

} // verus!
