//! The decisions behind the command-line tool: editing the configuration
//! (`wiky config set <key> <value>`), keeping only the sections of an
//! article that match a keyword (`wiky get --section`), and reading a menu
//! choice.

use vstd::prelude::*;

use crate::client::{strip_prefixes, texts};
use crate::config::{Config, ConfigView};
use crate::error::WikiError;
use crate::text::{
    ascii_lowercase, is_ascii_text, chars_of, contains, contains_exec, eq_chars, extend_chars, extend_str, lines, lines_exec,
    lowercase, owned, parse_unsigned, parse_unsigned_exec, starts_with,
    starts_with_exec, string_of, to_lowercase, trim, trim_exec,
};
use crate::theme::{builtin_palette, hex_color, hex_digits, hex_ok, hex_to_rgb, Theme};

verus! {

// ─── Booleans ────────────────────────────────────────────────────────────────

/// The truth value a word stands for (after lower-casing), if any.
pub open spec fn bool_word(s: Seq<char>) -> Option<bool> {
    bool_word_lowered(lowercase(s))
}

/// The truth value an already lower-cased word stands for, if any.
pub open spec fn bool_word_lowered(l: Seq<char>) -> Option<bool> {
    if l == "true"@ || l == "1"@ || l == "yes"@ || l == "on"@ {
        Some(true)
    } else if l == "false"@ || l == "0"@ || l == "no"@ || l == "off"@ {
        Some(false)
    } else {
        None
    }
}

/// The message for a value that is not a boolean.
pub open spec fn not_bool_message(s: Seq<char>) -> Seq<char> {
    "'"@ + s + "' is not a boolean (use true/false)"@
}

/// `'` + `s` + `tail`, as a `WikiError::Other`.
fn quoted_error(s: &str, tail: &str) -> (e: WikiError)
    ensures
        e matches WikiError::Other(m) && m@ == "'"@ + s@ + tail@,
{
    let mut v: Vec<char> = Vec::new();
    extend_str(&mut v, "'");
    extend_str(&mut v, s);
    extend_str(&mut v, tail);
    WikiError::Other(string_of(&v))
}

/// `lowered` is one of `words`.
fn is_one_of(lowered: &[char], words: [&str; 4]) -> (b: bool)
    ensures
        b == (lowered@ == words[0]@ || lowered@ == words[1]@ || lowered@ == words[2]@
            || lowered@ == words[3]@),
{
    eq_chars(lowered, &chars_of(words[0])) || eq_chars(lowered, &chars_of(words[1])) || eq_chars(
        lowered,
        &chars_of(words[2]),
    ) || eq_chars(lowered, &chars_of(words[3]))
}

/// Parse a boolean setting: `true`/`1`/`yes`/`on` or `false`/`0`/`no`/`off`,
/// in any case.
pub fn parse_bool(s: &str) -> (r: Result<bool, WikiError>)
    ensures
        match bool_word(s@) {
            Some(b) => r == Ok::<bool, WikiError>(b),
            None => r matches Err(WikiError::Other(m)) && m@ == not_bool_message(s@),
        },
        is_ascii_text(s@) ==> lowercase(s@) == ascii_lowercase(s@),
{
    let low = to_lowercase(s);
    bool_from_lowered(s, low.as_str())
}

/// The boolean setting `s` denotes, given `lowered`, its lower-cased form:
/// `true`/`1`/`yes`/`on` or `false`/`0`/`no`/`off`; otherwise an error
/// that quotes `s`.
pub fn bool_from_lowered(s: &str, lowered: &str) -> (r: Result<bool, WikiError>)
    ensures
        match bool_word_lowered(lowered@) {
            Some(b) => r == Ok::<bool, WikiError>(b),
            None => r matches Err(WikiError::Other(m)) && m@ == not_bool_message(s@),
        },
{
    let l = chars_of(lowered);
    if is_one_of(&l, ["true", "1", "yes", "on"]) {
        Ok(true)
    } else if is_one_of(&l, ["false", "0", "no", "off"]) {
        Ok(false)
    } else {
        Err(quoted_error(s, "' is not a boolean (use true/false)"))
    }
}

// ─── Theme fields ────────────────────────────────────────────────────────────

/// The position in a theme's palette of the color called `field`.
pub open spec fn theme_field_index(field: Seq<char>) -> Option<int> {
    if field == "title"@ {
        Some(0)
    } else if field == "heading"@ {
        Some(1)
    } else if field == "subheading"@ {
        Some(2)
    } else if field == "body"@ {
        Some(3)
    } else if field == "link"@ {
        Some(4)
    } else if field == "bold"@ {
        Some(5)
    } else if field == "italic"@ {
        Some(6)
    } else if field == "code"@ {
        Some(7)
    } else if field == "result_title"@ {
        Some(8)
    } else if field == "result_snippet"@ {
        Some(9)
    } else if field == "result_index"@ {
        Some(10)
    } else if field == "separator"@ {
        Some(11)
    } else if field == "error"@ {
        Some(12)
    } else if field == "success"@ {
        Some(13)
    } else if field == "dim"@ {
        Some(14)
    } else {
        None
    }
}

/// An error as plain values: whether it is an invalid color (else a
/// generic error), and its message.
pub type ErrorView = (bool, Seq<char>);

/// `e` is the error that `ev` describes.
pub open spec fn error_matches(e: WikiError, ev: ErrorView) -> bool {
    if ev.0 {
        e matches WikiError::InvalidColor(m) && m@ == ev.1
    } else {
        e matches WikiError::Other(m) && m@ == ev.1
    }
}

/// Setting the theme color `field` of `palette` to `value`: the color is
/// checked first, then the field name.
pub open spec fn theme_set(palette: Seq<Seq<char>>, field: Seq<char>, value: Seq<char>) -> Result<
    Seq<Seq<char>>,
    ErrorView,
> {
    match hex_color(value) {
        None => Err((true, seq!['#'] + hex_digits(value))),
        Some(_) => match theme_field_index(field) {
            Some(i) => Ok(palette.update(i, value)),
            None => Err((false, "Unknown theme field: '"@ + field + "'"@)),
        },
    }
}

/// Set one color of a theme, after checking that `value` is a valid hex
/// color.
pub fn apply_theme_field(theme: &mut Theme, field: &str, value: &str) -> (r: Result<(), WikiError>)
    requires
        hex_ok(value@),
    ensures
        match theme_set(old(theme)@, field@, value@) {
            Ok(p) => r is Ok && final(theme)@ == p,
            Err(ev) => (r matches Err(e) && error_matches(e, ev)) && final(theme)@ == old(theme)@,
        },
{
    match hex_to_rgb(value) {
        Ok(_) => {},
        Err(e) => {
            return Err(e);
        },
    }
    let f = chars_of(field);
    let v = owned(value);
    if eq_chars(&f, &chars_of("title")) {
        theme.title = v;
    } else if eq_chars(&f, &chars_of("heading")) {
        theme.heading = v;
    } else if eq_chars(&f, &chars_of("subheading")) {
        theme.subheading = v;
    } else if eq_chars(&f, &chars_of("body")) {
        theme.body = v;
    } else if eq_chars(&f, &chars_of("link")) {
        theme.link = v;
    } else if eq_chars(&f, &chars_of("bold")) {
        theme.bold = v;
    } else if eq_chars(&f, &chars_of("italic")) {
        theme.italic = v;
    } else if eq_chars(&f, &chars_of("code")) {
        theme.code = v;
    } else if eq_chars(&f, &chars_of("result_title")) {
        theme.result_title = v;
    } else if eq_chars(&f, &chars_of("result_snippet")) {
        theme.result_snippet = v;
    } else if eq_chars(&f, &chars_of("result_index")) {
        theme.result_index = v;
    } else if eq_chars(&f, &chars_of("separator")) {
        theme.separator = v;
    } else if eq_chars(&f, &chars_of("error")) {
        theme.error = v;
    } else if eq_chars(&f, &chars_of("success")) {
        theme.success = v;
    } else if eq_chars(&f, &chars_of("dim")) {
        theme.dim = v;
    } else {
        let mut m: Vec<char> = Vec::new();
        extend_str(&mut m, "Unknown theme field: '");
        extend_str(&mut m, field);
        extend_str(&mut m, "'");
        return Err(WikiError::Other(string_of(&m)));
    }
    assert(theme@ =~= old(theme)@.update(theme_field_index(field@)->0, value@));
    Ok(())
}

// ─── Configuration keys ──────────────────────────────────────────────────────

/// The key names a theme color (`custom_theme.<field>`) rather than one of
/// the plain settings.
pub open spec fn is_theme_key(key: Seq<char>) -> bool {
    &&& key != "language"@
    &&& key != "lang"@
    &&& key != "theme"@
    &&& key != "open_urls"@
    &&& key != "pager"@
    &&& key != "show_image_alt"@
    &&& key != "width"@
    &&& key != "results_count"@
    &&& starts_with(key, "custom_theme."@)
}

/// What `wiky config set key value` does to a configuration.
pub open spec fn config_set(c: ConfigView, key: Seq<char>, value: Seq<char>) -> Result<
    ConfigView,
    ErrorView,
> {
    if key == "language"@ || key == "lang"@ {
        Ok(ConfigView { language: value, ..c })
    } else if key == "theme"@ {
        Ok(ConfigView { theme: value, ..c })
    } else if key == "open_urls"@ || key == "pager"@ || key == "show_image_alt"@ {
        match bool_word(value) {
            None => Err((false, not_bool_message(value))),
            Some(b) => if key == "open_urls"@ {
                Ok(ConfigView { open_urls: b, ..c })
            } else if key == "pager"@ {
                Ok(ConfigView { pager: b, ..c })
            } else {
                Ok(ConfigView { show_image_alt: b, ..c })
            },
        }
    } else if key == "width"@ {
        match parse_unsigned(value, 10, 65535) {
            Some(n) => Ok(ConfigView { width: n as u16, ..c }),
            None => Err((false, "'"@ + value + "' is not a valid width"@)),
        }
    } else if key == "results_count"@ {
        match parse_unsigned(value, 10, 255) {
            Some(n) => Ok(ConfigView { results_count: n as u8, ..c }),
            None => Err((false, "'"@ + value + "' is not a valid count"@)),
        }
    } else if starts_with(key, "custom_theme."@) {
        match theme_set(c.custom_theme, strip_prefixes(key, "custom_theme."@), value) {
            Ok(p) => Ok(ConfigView { custom_theme: p, ..c }),
            Err(ev) => Err(ev),
        }
    } else {
        Err((false, "Unknown config key: '"@ + key + "'"@))
    }
}

/// Apply `wiky config set <key> <value>` to a configuration.
///
/// A theme color key (`custom_theme.<field>`) requires a value on which the
/// hex-color check returns.
pub fn apply_config_set(config: &mut Config, key: &str, value: &str) -> (r: Result<(), WikiError>)
    requires
        is_theme_key(key@) ==> hex_ok(value@),
    ensures
        match config_set(old(config)@, key@, value@) {
            Ok(c) => r is Ok && final(config)@ == c,
            Err(ev) => (r matches Err(e) && error_matches(e, ev)) && final(config)@ == old(
                config,
            )@,
        },
{
    let k = chars_of(key);
    if eq_chars(&k, &chars_of("language")) || eq_chars(&k, &chars_of("lang")) {
        config.language = owned(value);
    } else if eq_chars(&k, &chars_of("theme")) {
        config.theme = owned(value);
    } else if eq_chars(&k, &chars_of("open_urls")) {
        config.open_urls = parse_bool(value)?;
    } else if eq_chars(&k, &chars_of("pager")) {
        config.pager = parse_bool(value)?;
    } else if eq_chars(&k, &chars_of("show_image_alt")) {
        config.show_image_alt = parse_bool(value)?;
    } else if eq_chars(&k, &chars_of("width")) {
        match parse_unsigned_exec(&chars_of(value), 10, 65535) {
            Some(n) => {
                config.width = n as u16;
            },
            None => {
                return Err(quoted_error(value, "' is not a valid width"));
            },
        }
    } else if eq_chars(&k, &chars_of("results_count")) {
        match parse_unsigned_exec(&chars_of(value), 10, 255) {
            Some(n) => {
                config.results_count = n as u8;
            },
            None => {
                return Err(quoted_error(value, "' is not a valid count"));
            },
        }
    } else if starts_with_exec(&k, &chars_of("custom_theme.")) {
        let field = crate::client::strip_prefixes_exec(&k, &chars_of("custom_theme."));
        let f = string_of(&field);
        apply_theme_field(&mut config.custom_theme, f.as_str(), value)?;
    } else {
        let mut m: Vec<char> = Vec::new();
        extend_str(&mut m, "Unknown config key: '");
        extend_str(&mut m, key);
        extend_str(&mut m, "'");
        return Err(WikiError::Other(string_of(&m)));
    }
    Ok(())
}

// ─── Sections ────────────────────────────────────────────────────────────────

/// The lower-cased form of line `i`, as `lows` gives it (empty past its end).
pub open spec fn lowered_line(lows: Seq<Seq<char>>, i: int) -> Seq<char> {
    if 0 <= i < lows.len() {
        lows[i]
    } else {
        Seq::empty()
    }
}

/// Whether the lines `ls` end inside a section whose heading (a line that
/// starts with `#`) contains `kw` once lower-cased; `lows[i]` is line `i`
/// lower-cased.
pub open spec fn in_matching_section(ls: Seq<Seq<char>>, lows: Seq<Seq<char>>, kw: Seq<char>) -> bool
    decreases ls.len(),
{
    if ls.len() == 0 {
        false
    } else if starts_with(ls.last(), "#"@) {
        contains(lowered_line(lows, ls.len() - 1), kw)
    } else {
        in_matching_section(ls.drop_last(), lows, kw)
    }
}

/// The lines of `ls` that lie in matching sections, each followed by `\n`.
pub open spec fn matching_sections(ls: Seq<Seq<char>>, lows: Seq<Seq<char>>, kw: Seq<char>) -> Seq<
    char,
>
    decreases ls.len(),
{
    if ls.len() == 0 {
        Seq::empty()
    } else if in_matching_section(ls, lows, kw) {
        matching_sections(ls.drop_last(), lows, kw) + ls.last() + seq!['\n']
    } else {
        matching_sections(ls.drop_last(), lows, kw)
    }
}

/// The sections of `content` whose heading, lower-cased as `lows` gives
/// it, contains `kw`; or all of `content` where none does.
pub open spec fn sections_matching(content: Seq<char>, lows: Seq<Seq<char>>, kw: Seq<char>) -> Seq<
    char,
> {
    let out = matching_sections(lines(content), lows, kw);
    if out.len() == 0 {
        content
    } else {
        out
    }
}

/// The sections of `content` whose heading contains `keyword` (both
/// lower-cased), or all of `content` where none does.
pub open spec fn filter_section_spec(content: Seq<char>, keyword: Seq<char>) -> Seq<char> {
    sections_matching(
        content,
        lines(content).map_values(|l: Seq<char>| lowercase(l)),
        lowercase(keyword),
    )
}

/// Keep only the sections of `content` whose heading contains `keyword`
/// (case-insensitively); where no section matches, the whole content.
pub fn filter_section(content: &str, keyword: &str) -> (r: String)
    ensures
        r@ == filter_section_spec(content@, keyword@),
{
    let kw = to_lowercase(keyword);
    let c = chars_of(content);
    let ls = lines_exec(&c);
    let ghost lv = lines(content@);
    let mut lows: Vec<String> = Vec::new();
    let mut i: usize = 0;
    while i < ls.len()
        invariant
            0 <= i <= ls.len(),
            ls@.len() == lv.len(),
            forall|k: int| 0 <= k < ls@.len() ==> (#[trigger] ls@[k])@ == lv[k],
            texts(lows@) == lv.take(i as int).map_values(|l: Seq<char>| lowercase(l)),
        decreases ls.len() - i,
    {
        let ghost l0 = texts(lows@);
        lows.push(to_lowercase(string_of(&ls[i]).as_str()));
        assert(texts(lows@) =~= l0.push(lows@[i as int]@));
        assert(lv.take(i + 1) =~= lv.take(i as int).push(lv[i as int]));
        assert(texts(lows@) =~= lv.take(i + 1).map_values(|l: Seq<char>| lowercase(l)));
        i = i + 1;
    }
    assert(lv.take(ls.len() as int) =~= lv);
    filter_lowered_sections(content, &lows, kw.as_str())
}

/// The sections of `content` whose heading contains `lowered_keyword` once
/// lower-cased, `lowered_lines[i]` being line `i` of `content` lower-cased;
/// where none does, the whole content.
pub fn filter_lowered_sections(content: &str, lowered_lines: &Vec<String>, lowered_keyword: &str) -> (r:
    String)
    ensures
        r@ == sections_matching(content@, texts(lowered_lines@), lowered_keyword@),
{
    let kw = chars_of(lowered_keyword);
    let c = chars_of(content);
    let ls = lines_exec(&c);
    let ghost lv = lines(content@);
    let ghost lows = texts(lowered_lines@);
    let hash = chars_of("#");
    let mut out: Vec<char> = Vec::new();
    let mut in_m = false;
    let mut i: usize = 0;
    while i < ls.len()
        invariant
            0 <= i <= ls.len(),
            ls@.len() == lv.len(),
            hash@ == "#"@,
            kw@ == lowered_keyword@,
            lows == texts(lowered_lines@),
            forall|k: int| 0 <= k < ls@.len() ==> (#[trigger] ls@[k])@ == lv[k],
            in_m == in_matching_section(lv.take(i as int), lows, kw@),
            out@ == matching_sections(lv.take(i as int), lows, kw@),
        decreases ls.len() - i,
    {
        let line = &ls[i];
        let ghost t = lv.take(i + 1);
        assert(t.drop_last() =~= lv.take(i as int));
        assert(t.last() == lv[i as int]);
        if starts_with_exec(line, &hash) {
            if i < lowered_lines.len() {
                assert(lowered_line(lows, i as int) == lowered_lines@[i as int]@);
                in_m = contains_exec(&chars_of(lowered_lines[i].as_str()), &kw);
            } else {
                in_m = contains_exec(&Vec::new(), &kw);
            }
        }
        if in_m {
            extend_chars(&mut out, line);
            out.push('\n');
        }
        i = i + 1;
    }
    assert(lv.take(ls.len() as int) =~= lv);
    if out.len() == 0 {
        owned(content)
    } else {
        string_of(&out)
    }
}

// ─── Menu choices ────────────────────────────────────────────────────────────

/// The option picked by typing `input` in a menu of `n` entries (numbered
/// from 1; 0 or anything unreadable quits): its index, if any.
pub open spec fn menu_choice(input: Seq<char>, n: nat) -> Option<int> {
    match parse_unsigned(trim(input), 10, usize::MAX as nat) {
        Some(c) if 1 <= c <= n => Some(c - 1),
        _ => None,
    }
}

/// Read a menu choice: the trimmed input as a number, 0 when it is not one;
/// 0 or a number past the last entry picks nothing.
pub fn parse_choice(input: &str, n: usize) -> (r: Option<usize>)
    ensures
        r matches Some(i) ==> i < n,
        match r {
            Some(i) => menu_choice(input@, n as nat) == Some(i as int),
            None => menu_choice(input@, n as nat) is None,
        },
{
    let v = chars_of(input);
    let t = trim_exec(&v);
    let choice: u64 = match parse_unsigned_exec(&t, 10, usize::MAX as u64) {
        Some(c) => c,
        None => 0,
    };
    if choice == 0 || choice > n as u64 {
        None
    } else {
        Some((choice - 1) as usize)
    }
}

} // verus!

verus! {

// ─── Laws ────────────────────────────────────────────────────────────────────

proof fn lemma_plain_keys_distinct()
    ensures
        "width"@ != "language"@,
        "width"@ != "lang"@,
        "width"@ != "theme"@,
        "width"@ != "open_urls"@,
        "width"@ != "pager"@,
        "width"@ != "show_image_alt"@,
        "results_count"@ != "language"@,
        "results_count"@ != "lang"@,
        "results_count"@ != "theme"@,
        "results_count"@ != "open_urls"@,
        "results_count"@ != "pager"@,
        "results_count"@ != "show_image_alt"@,
        "results_count"@ != "width"@,
{
    reveal_strlit("width");
    reveal_strlit("language");
    reveal_strlit("lang");
    reveal_strlit("theme");
    reveal_strlit("open_urls");
    reveal_strlit("pager");
    reveal_strlit("show_image_alt");
    reveal_strlit("results_count");
    assert("width"@[0] != "language"@[0]);
    assert("width"@[0] != "lang"@[0]);
    assert("width"@[0] != "theme"@[0]);
    assert("width"@[0] != "open_urls"@[0]);
    assert("width"@[0] != "pager"@[0]);
    assert("width"@[0] != "show_image_alt"@[0]);
    assert("results_count"@[0] != "language"@[0]);
    assert("results_count"@[0] != "lang"@[0]);
    assert("results_count"@[0] != "theme"@[0]);
    assert("results_count"@[0] != "open_urls"@[0]);
    assert("results_count"@[0] != "pager"@[0]);
    assert("results_count"@[0] != "show_image_alt"@[0]);
    assert("results_count"@[0] != "width"@[0]);
}

/// `wiky config set` of a boolean setting (`pager`, `open_urls`,
/// `show_image_alt`) gives it the value the word denotes, whatever it was
/// before, and changes nothing else; a word that is no boolean is refused
/// with the setting unchanged.
pub proof fn law_bool_settings_take_the_value(c: ConfigView, v: Seq<char>)
    ensures
        bool_word(v) matches Some(b) ==> config_set(c, "pager"@, v) == Ok::<ConfigView, ErrorView>(
            ConfigView { pager: b, ..c },
        ),
        bool_word(v) matches Some(b) ==> config_set(c, "open_urls"@, v) == Ok::<
            ConfigView,
            ErrorView,
        >(ConfigView { open_urls: b, ..c }),
        bool_word(v) matches Some(b) ==> config_set(c, "show_image_alt"@, v) == Ok::<
            ConfigView,
            ErrorView,
        >(ConfigView { show_image_alt: b, ..c }),
        bool_word(v) is None ==> config_set(c, "pager"@, v) == Err::<ConfigView, ErrorView>(
            (false, not_bool_message(v)),
        ),
{
    reveal_strlit("pager");
    reveal_strlit("open_urls");
    reveal_strlit("show_image_alt");
    reveal_strlit("language");
    reveal_strlit("lang");
    reveal_strlit("theme");
    assert("pager"@[0] != "language"@[0] && "pager"@[0] != "lang"@[0]);
    assert("pager"@[0] != "theme"@[0] && "pager"@[0] != "open_urls"@[0]);
    assert("open_urls"@[0] != "language"@[0] && "open_urls"@[0] != "lang"@[0]);
    assert("open_urls"@[0] != "theme"@[0]);
    assert("show_image_alt"@[0] != "language"@[0] && "show_image_alt"@[0] != "lang"@[0]);
    assert("show_image_alt"@[0] != "theme"@[0] && "show_image_alt"@[0] != "open_urls"@[0]);
    assert("show_image_alt"@[0] != "pager"@[0]);
}

/// The width that `wiky config show` prints is accepted back by
/// `wiky config set width`, and sets the same width.
pub proof fn law_width_round_trip(c: ConfigView, w: u16)
    ensures
        config_set(c, "width"@, crate::text::decimal(w as nat)) == Ok::<ConfigView, ErrorView>(
            ConfigView { width: w, ..c },
        ),
{
    lemma_plain_keys_distinct();
    crate::text::law_parse_decimal_round_trip(w as nat, 65535);
}

/// The result count that `wiky config show` prints is accepted back by
/// `wiky config set results_count`, and sets the same count.
pub proof fn law_results_count_round_trip(c: ConfigView, n: u8)
    ensures
        config_set(c, "results_count"@, crate::text::decimal(n as nat)) == Ok::<
            ConfigView,
            ErrorView,
        >(ConfigView { results_count: n, ..c }),
{
    lemma_plain_keys_distinct();
    crate::text::law_parse_decimal_round_trip(n as nat, 255);
}

/// `wiky config set theme <name>` with the name of a built-in theme, in any
/// case, makes that theme the active one (the name `custom` itself selects
/// the custom theme instead).
pub proof fn law_theme_setting_selects_builtin(c: ConfigView, name: Seq<char>)
    requires
        builtin_palette(lowercase(name)) is Some,
        name != "custom"@,
    ensures
        config_set(c, "theme"@, name) matches Ok(c2) && c2.theme == name
            && crate::config::active_palette_of(c2) == builtin_palette(lowercase(name))->0,
{
    reveal_strlit("theme");
    reveal_strlit("language");
    reveal_strlit("lang");
    assert("theme"@[0] != "language"@[0] && "theme"@[0] != "lang"@[0]);
}

/// A custom color that `wiky config set custom_theme.<field> <color>`
/// writes is the color the active theme then shows in that place, when the
/// configuration selects the custom theme.
pub proof fn law_custom_color_round_trip(c: ConfigView, key: Seq<char>, value: Seq<char>)
    requires
        c.custom_theme.len() == 15,
        is_theme_key(key),
        theme_field_index(strip_prefixes(key, "custom_theme."@)) is Some,
        hex_color(value) is Some,
        c.theme == "custom"@,
    ensures
        config_set(c, key, value) matches Ok(c2) && c2.theme == c.theme
            && crate::config::active_palette_of(c2)[theme_field_index(
            strip_prefixes(key, "custom_theme."@),
        )->0] == value,
{
    let i = theme_field_index(strip_prefixes(key, "custom_theme."@))->0;
    assert(0 <= i < 15);
    let p = c.custom_theme.update(i, value);
    assert(theme_set(c.custom_theme, strip_prefixes(key, "custom_theme."@), value) == Ok::<
        Seq<Seq<char>>,
        ErrorView,
    >(p));
    let c2 = ConfigView { custom_theme: p, ..c };
    assert(config_set(c, key, value) == Ok::<ConfigView, ErrorView>(c2));
    assert(crate::config::active_palette_of(c2) == p);
    assert(p[i] == value);
}

} // verus!
