//! Theme system: hex-color parsing, the built-in themes, and the styling of
//! text with a theme's colors.
//!
//! Styled text is a [`Paint`]: the text with the truecolor foreground and
//! background and the emphasis that `colored` applies when it is displayed.

use vstd::prelude::*;

use crate::error::WikiError;
use crate::text::{
    ascii_lowercase, chars_of, digit_value, digit_value_exec, is_ascii_text, eq_chars, extend_chars, is_ws, lowercase,
    owned, replace, slice_chars, string_of, to_lowercase, trim, trim_exec,
};

verus! {

// ─── Hex colors ──────────────────────────────────────────────────────────────

/// Bytes in the UTF-8 encoding of `c` (`char::len_utf8`).
pub open spec fn utf8_width(c: char) -> nat {
    let u = c as u32;
    if u < 0x80 {
        1
    } else if u < 0x800 {
        2
    } else if u < 0x10000 {
        3
    } else {
        4
    }
}

/// Bytes in the UTF-8 encoding of `s` (`str::len`).
pub open spec fn utf8_len(s: Seq<char>) -> nat
    decreases s.len(),
{
    if s.len() == 0 {
        0
    } else {
        utf8_width(s[0]) + utf8_len(s.drop_first())
    }
}

/// `s` without all its leading `#` (`str::trim_start_matches('#')`).
pub open spec fn strip_hashes(s: Seq<char>) -> Seq<char>
    decreases s.len(),
{
    if s.len() > 0 && s[0] == '#' {
        strip_hashes(s.drop_first())
    } else {
        s
    }
}

/// The digits part of a color string: trimmed, leading `#`s removed.
pub open spec fn hex_digits(s: Seq<char>) -> Seq<char> {
    strip_hashes(trim(s))
}

/// `c` is a hexadecimal digit (`0-9`, `a-f`, `A-F`).
pub open spec fn is_hex_digit(c: char) -> bool {
    digit_value(c, 16) is Some
}

/// The byte that the hex digits `x`, `y` denote, if both are hex digits.
pub open spec fn hex_byte(x: char, y: char) -> Option<nat> {
    if is_hex_digit(x) && is_hex_digit(y) {
        Some(digit_value(x, 16)->0 * 16 + digit_value(y, 16)->0)
    } else {
        None
    }
}

/// One channel of a `#RRGGBB` color: the two characters of `h` that start
/// at character `i` read as a hex byte, all characters before `i` being one
/// byte long. `None` where the two bytes end inside a character (the slice
/// panics).
pub open spec fn pair_channel(h: Seq<char>, i: int) -> Option<Option<nat>> {
    if utf8_width(h[i]) == 1 {
        if utf8_width(h[i + 1]) == 1 {
            Some(hex_byte(h[i], h[i + 1]))
        } else {
            None
        }
    } else if utf8_width(h[i]) == 2 {
        Some(None)
    } else {
        None
    }
}

/// One channel of a `#RGB` color: the hex digit at character `i` written
/// twice.
/// `None` where that byte is not a whole character (the slice panics).
pub open spec fn doubled_channel(h: Seq<char>, i: int) -> Option<Option<nat>> {
    if utf8_width(h[i]) == 1 {
        Some(hex_byte(h[i], h[i]))
    } else {
        None
    }
}

/// The channels parsed in order, stopping at the first failure.
pub open spec fn channels(
    r: Option<Option<nat>>,
    g: Option<Option<nat>>,
    b: Option<Option<nat>>,
) -> Option<Option<(u8, u8, u8)>> {
    match r {
        None => None,
        Some(None) => Some(None),
        Some(Some(rv)) => match g {
            None => None,
            Some(None) => Some(None),
            Some(Some(gv)) => match b {
                None => None,
                Some(None) => Some(None),
                Some(Some(bv)) => Some(Some((rv as u8, gv as u8, bv as u8))),
            },
        },
    }
}

/// What `hex_to_rgb` does with `s`: `None` where it panics, `Some(None)`
/// where it reports an invalid color, `Some(Some(rgb))` on success.
pub open spec fn hex_outcome(s: Seq<char>) -> Option<Option<(u8, u8, u8)>> {
    let h = hex_digits(s);
    let n = utf8_len(h);
    if n == 6 {
        channels(pair_channel(h, 0), pair_channel(h, 2), pair_channel(h, 4))
    } else if n == 3 {
        channels(doubled_channel(h, 0), doubled_channel(h, 1), doubled_channel(h, 2))
    } else {
        Some(None)
    }
}

/// `hex_to_rgb` returns on `s` (it slices `s` only at character boundaries).
pub open spec fn hex_ok(s: Seq<char>) -> bool {
    hex_outcome(s) is Some
}

/// The color that `s` denotes, if any.
pub open spec fn hex_color(s: Seq<char>) -> Option<(u8, u8, u8)> {
    match hex_outcome(s) {
        Some(Some(c)) => Some(c),
        _ => None,
    }
}

proof fn lemma_utf8_len_ascii_prefix(h: Seq<char>, k: int)
    requires
        0 <= k <= h.len(),
        forall|j: int| 0 <= j < k ==> utf8_width(#[trigger] h[j]) == 1,
    ensures
        utf8_len(h) == k + utf8_len(h.skip(k)),
    decreases k,
{
    if k > 0 {
        lemma_utf8_len_ascii_prefix(h.drop_first(), k - 1);
        assert(h.drop_first().skip(k - 1) =~= h.skip(k));
    } else {
        assert(h.skip(0) =~= h);
    }
}

proof fn lemma_utf8_len_pos(h: Seq<char>)
    requires
        h.len() > 0,
    ensures
        utf8_len(h) >= utf8_width(h[0]),
        utf8_len(h) == utf8_width(h[0]) + utf8_len(h.drop_first()),
{
}

/// Bytes in the UTF-8 encoding of `c`.
fn utf8_width_exec(c: char) -> (n: usize)
    ensures
        n == utf8_width(c),
{
    let u = c as u32;
    if u < 0x80 {
        1
    } else if u < 0x800 {
        2
    } else if u < 0x10000 {
        3
    } else {
        4
    }
}

/// The UTF-8 length of `h` if it is at most `cap`, else `cap + 1`.
pub fn utf8_len_capped(h: &[char], cap: usize) -> (n: usize)
    requires
        cap < 100000,
    ensures
        n == if utf8_len(h@) <= cap { utf8_len(h@) } else { cap as nat + 1 },
{
    let mut total: usize = 0;
    let mut i: usize = 0;
    assert(h@.skip(0) =~= h@);
    while i < h.len()
        invariant
            0 <= i <= h.len(),
            cap < 100000,
            total <= cap,
            utf8_len(h@) == total + utf8_len(h@.skip(i as int)),
        decreases h.len() - i,
    {
        proof {
            let rest = h@.skip(i as int);
            assert(rest.drop_first() =~= h@.skip(i + 1));
        }
        total = total + utf8_width_exec(h[i]);
        if total > cap {
            proof {
                assert(utf8_len(h@.skip(i + 1)) >= 0);
            }
            return cap + 1;
        }
        i = i + 1;
    }
    assert(h@.skip(i as int) =~= Seq::<char>::empty());
    total
}

/// `s` without its leading `#`s.
fn strip_hashes_exec(v: &[char]) -> (r: Vec<char>)
    ensures
        r@ == strip_hashes(v@),
{
    let mut i: usize = 0;
    assert(v@.skip(0) =~= v@);
    while i < v.len() && v[i] == '#'
        invariant
            0 <= i <= v.len(),
            strip_hashes(v@) == strip_hashes(v@.skip(i as int)),
        decreases v.len() - i,
    {
        assert(v@.skip(i as int).drop_first() =~= v@.skip(i + 1));
        i = i + 1;
    }
    slice_chars(v, i, v.len())
}

/// The byte that the hex digits `x`, `y` denote, if both are hex digits.
fn hex_byte_exec(x: char, y: char) -> (r: Option<u8>)
    ensures
        match r {
            Some(v) => hex_byte(x, y) == Some(v as nat),
            None => hex_byte(x, y) is None,
        },
{
    match (digit_value_exec(x, 16), digit_value_exec(y, 16)) {
        (Some(a), Some(b)) => Some((a * 16 + b) as u8),
        _ => None,
    }
}

/// Reads the two characters `h[i]`, `h[i+1]` as a hex byte.
fn parse_pair(h: &[char], i: usize) -> (r: Option<u8>)
    requires
        i + 2 <= h.len(),
    ensures
        match r {
            Some(v) => hex_byte(h@[i as int], h@[i + 1]) == Some(v as nat),
            None => hex_byte(h@[i as int], h@[i + 1]) is None,
        },
{
    hex_byte_exec(h[i], h[i + 1])
}

/// Reads the character `h[i]` written twice as a hex byte.
fn parse_doubled(h: &[char], i: usize) -> (r: Option<u8>)
    requires
        i < h.len(),
    ensures
        match r {
            Some(v) => hex_byte(h@[i as int], h@[i as int]) == Some(v as nat),
            None => hex_byte(h@[i as int], h@[i as int]) is None,
        },
{
    hex_byte_exec(h[i], h[i])
}

/// The error for the color digits `h`: `InvalidColor("#" + h)`.
fn invalid_color(h: &[char]) -> (e: WikiError)
    ensures
        e matches WikiError::InvalidColor(m) && m@ == seq!['#'] + h@,
{
    let mut v: Vec<char> = Vec::new();
    v.push('#');
    extend_chars(&mut v, h);
    WikiError::InvalidColor(string_of(&v))
}

/// `hex_to_rgb` on strings where it returns: the error for invalid input.
pub open spec fn hex_result_ok(s: Seq<char>, r: Result<(u8, u8, u8), WikiError>) -> bool {
    match hex_outcome(s) {
        Some(Some(c)) => r == Ok::<(u8, u8, u8), WikiError>(c),
        _ => r matches Err(WikiError::InvalidColor(m)) && m@ == seq!['#'] + hex_digits(s),
    }
}

/// Parse a CSS-style hex color string (`#RRGGBB` or `#RGB`) into `(r, g, b)`.
///
/// Surrounding whitespace and any number of leading `#` are ignored. Six
/// hex digits give the three channels two digits each; three hex digits
/// give them one digit each, written twice (`#f60` is `#ff6600`). Anything
/// else (another length, a character that is not a hex digit, a sign) is
/// `WikiError::InvalidColor("#" + digits)`.
pub fn hex_to_rgb(hex: &str) -> (r: Result<(u8, u8, u8), WikiError>)
    requires
        hex_ok(hex@),
    ensures
        hex_result_ok(hex@, r),
{
    let all = chars_of(hex);
    let t = trim_exec(&all);
    let h = strip_hashes_exec(&t);
    let n = utf8_len_capped(&h, 6);
    if n == 6 {
        proof {
            lemma_utf8_len_pos(h@);
        }
        let w0 = utf8_width_exec(h[0]);
        if w0 != 1 {
            // a two-byte first character is the whole first channel
            return Err(invalid_color(&h));
        }
        proof {
            lemma_utf8_len_ascii_prefix(h@, 1);
            lemma_utf8_len_pos(h@.skip(1));
            assert(h@.skip(1)[0] == h@[1]);
        }
        let r = match parse_pair(&h, 0) {
            Some(v) => v,
            None => {
                return Err(invalid_color(&h));
            },
        };
        proof {
            assert(h@.subrange(0, 2)[1] == h@[1]);
            assert(utf8_width(h@[1]) == 1) by {
                if utf8_width(h@[1]) != 1 {
                    assert(pair_channel(h@, 0) is None);
                }
            }
            lemma_utf8_len_ascii_prefix(h@, 2);
            lemma_utf8_len_pos(h@.skip(2));
            assert(h@.skip(2)[0] == h@[2]);
        }
        if utf8_width_exec(h[2]) != 1 {
            return Err(invalid_color(&h));
        }
        proof {
            lemma_utf8_len_ascii_prefix(h@, 3);
            lemma_utf8_len_pos(h@.skip(3));
            assert(h@.skip(3)[0] == h@[3]);
        }
        let g = match parse_pair(&h, 2) {
            Some(v) => v,
            None => {
                return Err(invalid_color(&h));
            },
        };
        proof {
            assert(utf8_width(h@[3]) == 1) by {
                if utf8_width(h@[3]) != 1 {
                    assert(pair_channel(h@, 2) is None);
                }
            }
            lemma_utf8_len_ascii_prefix(h@, 4);
            lemma_utf8_len_pos(h@.skip(4));
            assert(h@.skip(4)[0] == h@[4]);
        }
        if utf8_width_exec(h[4]) != 1 {
            return Err(invalid_color(&h));
        }
        proof {
            lemma_utf8_len_ascii_prefix(h@, 5);
            lemma_utf8_len_pos(h@.skip(5));
            assert(h@.skip(5)[0] == h@[5]);
        }
        let b = match parse_pair(&h, 4) {
            Some(v) => v,
            None => {
                return Err(invalid_color(&h));
            },
        };
        Ok((r, g, b))
    } else if n == 3 {
        proof {
            lemma_utf8_len_pos(h@);
        }
        let r = match parse_doubled(&h, 0) {
            Some(v) => v,
            None => {
                return Err(invalid_color(&h));
            },
        };
        proof {
            lemma_utf8_len_ascii_prefix(h@, 1);
            lemma_utf8_len_pos(h@.skip(1));
            assert(h@.skip(1)[0] == h@[1]);
        }
        let g = match parse_doubled(&h, 1) {
            Some(v) => v,
            None => {
                return Err(invalid_color(&h));
            },
        };
        proof {
            lemma_utf8_len_ascii_prefix(h@, 2);
            lemma_utf8_len_pos(h@.skip(2));
            assert(h@.skip(2)[0] == h@[2]);
        }
        let b = match parse_doubled(&h, 2) {
            Some(v) => v,
            None => {
                return Err(invalid_color(&h));
            },
        };
        Ok((r, g, b))
    } else {
        Err(invalid_color(&h))
    }
}

/// Whether `hex_to_rgb` returns on `hex` (rather than panicking on a slice
/// that ends inside a multi-byte character).
pub fn hex_is_ok(hex: &str) -> (b: bool)
    ensures
        b == hex_ok(hex@),
{
    let all = chars_of(hex);
    let t = trim_exec(&all);
    let h = strip_hashes_exec(&t);
    let n = utf8_len_capped(&h, 6);
    if n == 6 {
        proof {
            lemma_utf8_len_pos(h@);
        }
        let w0 = utf8_width_exec(h[0]);
        if w0 == 2 {
            return true;
        }
        if w0 != 1 {
            return false;
        }
        proof {
            lemma_utf8_len_ascii_prefix(h@, 1);
            lemma_utf8_len_pos(h@.skip(1));
            assert(h@.skip(1)[0] == h@[1]);
        }
        if utf8_width_exec(h[1]) != 1 {
            return false;
        }
        if parse_pair(&h, 0).is_none() {
            return true;
        }
        proof {
            lemma_utf8_len_ascii_prefix(h@, 2);
            lemma_utf8_len_pos(h@.skip(2));
            assert(h@.skip(2)[0] == h@[2]);
        }
        let w2 = utf8_width_exec(h[2]);
        if w2 == 2 {
            return true;
        }
        if w2 != 1 {
            return false;
        }
        proof {
            lemma_utf8_len_ascii_prefix(h@, 3);
            lemma_utf8_len_pos(h@.skip(3));
            assert(h@.skip(3)[0] == h@[3]);
        }
        if utf8_width_exec(h[3]) != 1 {
            return false;
        }
        if parse_pair(&h, 2).is_none() {
            return true;
        }
        proof {
            lemma_utf8_len_ascii_prefix(h@, 4);
            lemma_utf8_len_pos(h@.skip(4));
            assert(h@.skip(4)[0] == h@[4]);
        }
        let w4 = utf8_width_exec(h[4]);
        if w4 == 2 {
            return true;
        }
        if w4 != 1 {
            return false;
        }
        proof {
            lemma_utf8_len_ascii_prefix(h@, 5);
            lemma_utf8_len_pos(h@.skip(5));
            assert(h@.skip(5)[0] == h@[5]);
        }
        utf8_width_exec(h[5]) == 1
    } else if n == 3 {
        proof {
            lemma_utf8_len_pos(h@);
        }
        if utf8_width_exec(h[0]) != 1 {
            return false;
        }
        if parse_doubled(&h, 0).is_none() {
            return true;
        }
        proof {
            lemma_utf8_len_ascii_prefix(h@, 1);
            lemma_utf8_len_pos(h@.skip(1));
            assert(h@.skip(1)[0] == h@[1]);
        }
        if utf8_width_exec(h[1]) != 1 {
            return false;
        }
        if parse_doubled(&h, 1).is_none() {
            return true;
        }
        proof {
            lemma_utf8_len_ascii_prefix(h@, 2);
            lemma_utf8_len_pos(h@.skip(2));
            assert(h@.skip(2)[0] == h@[2]);
        }
        utf8_width_exec(h[2]) == 1
    } else {
        true
    }
}

} // verus!

verus! {

// ─── Styled text ─────────────────────────────────────────────────────────────

/// An emphasis that a terminal can apply to text.
#[derive(Debug, Clone, Copy, PartialEq, Eq)]
pub enum Emphasis {
    Bold,
    Italic,
    Underline,
}

/// Text with the truecolor foreground, background and emphasis to show it
/// with.
#[derive(Debug, Clone)]
pub struct Paint {
    pub text: String,
    pub fg: Option<(u8, u8, u8)>,
    pub bg: Option<(u8, u8, u8)>,
    pub emphasis: Vec<Emphasis>,
}

/// Styled text as plain values.
pub struct PaintView {
    pub text: Seq<char>,
    pub fg: Option<(u8, u8, u8)>,
    pub bg: Option<(u8, u8, u8)>,
    pub emphasis: Seq<Emphasis>,
}

impl View for Paint {
    type V = PaintView;

    open spec fn view(&self) -> PaintView {
        PaintView { text: self.text@, fg: self.fg, bg: self.bg, emphasis: self.emphasis@ }
    }
}

/// The ANSI sequence that ends styled text.
pub open spec fn ansi_reset() -> Seq<char> {
    seq!['\x1B', '[', '0', 'm']
}

/// An ANSI "select graphic rendition" sequence: `ESC [ … m`.
pub open spec fn ansi_sgr(pre: Seq<char>) -> bool {
    pre.len() >= 3 && pre[0] == '\x1B' && pre[1] == '[' && pre.last() == 'm'
}

/// `p` carries no color and no emphasis.
pub open spec fn is_plain(p: PaintView) -> bool {
    p.fg is None && p.bg is None && p.emphasis.len() == 0
}

/// An SGR sequence, or nothing (the style `colored` computes where coloring
/// is switched off meanwhile).
pub open spec fn style_or_nothing(pre: Seq<char>) -> bool {
    pre.len() == 0 || ansi_sgr(pre)
}

/// `out` is a way the terminal text of `p` can look: the text itself (always
/// so for plain paint, and whenever coloring is off), or the text between a
/// style and a reset, with a style re-opened after every reset sequence
/// inside the text.
pub open spec fn shows(p: PaintView, out: Seq<char>) -> bool {
    if is_plain(p) {
        out == p.text
    } else {
        out == p.text || exists|pre: Seq<char>, inner: Seq<char>|
            style_or_nothing(pre) && style_or_nothing(inner) && out == pre + replace(
                p.text,
                ansi_reset(),
                ansi_reset() + inner,
            ) + ansi_reset()
    }
}

/// Displays `p` through `colored`: a `ColoredString` with `p`'s text,
/// truecolor foreground and background and styles, written with `to_string`.
///
/// What comes out depends on whether `colored` colorizes at the time (the
/// `NO_COLOR` and `CLICOLOR*` variables, whether stdout is a terminal, a
/// global override) and on `COLORTERM`, which picks truecolor or the nearest
/// basic color: the contract states what holds in every case. Which SGR
/// sequence is written is left unsaid.
#[verifier::external_body]
pub(crate) fn show(p: &Paint) -> (out: String)
    ensures
        shows(p@, out@),
{
    let mut cs = colored::ColoredString::from(p.text.as_str());
    cs.fgcolor = p.fg.map(|(r, g, b)| colored::Color::TrueColor { r, g, b });
    cs.bgcolor = p.bg.map(|(r, g, b)| colored::Color::TrueColor { r, g, b });
    for e in p.emphasis.iter() {
        cs.style.add(
            match e {
                Emphasis::Bold => colored::Styles::Bold,
                Emphasis::Italic => colored::Styles::Italic,
                Emphasis::Underline => colored::Styles::Underline,
            },
        );
    }
    cs.to_string()
}

/// Text painted with the foreground color `hex` denotes, or unstyled text
/// where `hex` is not a valid color.
pub fn colorize_hex(text: &str, hex: &str) -> (p: Paint)
    requires
        hex_ok(hex@),
    ensures
        p.text@ == text@,
        p.fg == hex_color(hex@),
        p.bg is None,
        p.emphasis@ == Seq::<Emphasis>::empty(),
{
    let fg = match hex_to_rgb(hex) {
        Ok(c) => Some(c),
        Err(_) => None,
    };
    Paint { text: owned(text), fg, bg: None, emphasis: Vec::new() }
}

/// Text painted with the background color `hex` denotes, or unstyled text
/// where `hex` is not a valid color.
pub fn bg_hex(text: &str, hex: &str) -> (p: Paint)
    requires
        hex_ok(hex@),
    ensures
        p.text@ == text@,
        p.fg is None,
        p.bg == hex_color(hex@),
        p.emphasis@ == Seq::<Emphasis>::empty(),
{
    let bg = match hex_to_rgb(hex) {
        Ok(c) => Some(c),
        Err(_) => None,
    };
    Paint { text: owned(text), fg: None, bg, emphasis: Vec::new() }
}

/// `p` with emphasis `e` added.
pub fn emphasize(p: Paint, e: Emphasis) -> (r: Paint)
    ensures
        r.text == p.text,
        r.fg == p.fg,
        r.bg == p.bg,
        r.emphasis@ == p.emphasis@.push(e),
{
    let mut p = p;
    p.emphasis.push(e);
    p
}

// ─── Theme definition ────────────────────────────────────────────────────────

/// A complete color theme for wiky terminal output.
///
/// All color values are hex strings (`#RRGGBB`).
#[derive(Debug, Clone)]
pub struct Theme {
    /// Article title color.
    pub title: String,
    /// Section heading color.
    pub heading: String,
    /// Sub-section heading color.
    pub subheading: String,
    /// Body text color.
    pub body: String,
    /// URL / link color.
    pub link: String,
    /// Bold / emphasis color.
    pub bold: String,
    /// Italic text color.
    pub italic: String,
    /// Code block color.
    pub code: String,
    /// Search-result title color.
    pub result_title: String,
    /// Search-result snippet color.
    pub result_snippet: String,
    /// Result index number color.
    pub result_index: String,
    /// Separator / rule color.
    pub separator: String,
    /// Error message color.
    pub error: String,
    /// Success / info message color.
    pub success: String,
    /// Dim / muted text color.
    pub dim: String,
}

/// The fifteen colors of a theme, in declaration order.
impl View for Theme {
    type V = Seq<Seq<char>>;

    open spec fn view(&self) -> Seq<Seq<char>> {
        seq![
            self.title@,
            self.heading@,
            self.subheading@,
            self.body@,
            self.link@,
            self.bold@,
            self.italic@,
            self.code@,
            self.result_title@,
            self.result_snippet@,
            self.result_index@,
            self.separator@,
            self.error@,
            self.success@,
            self.dim@,
        ]
    }
}

/// The palette of the classic dark-terminal theme.
pub open spec fn dark_palette() -> Seq<Seq<char>> {
    seq![
        "#61AFEF"@,
        "#E5C07B"@,
        "#98C379"@,
        "#ABB2BF"@,
        "#56B6C2"@,
        "#E06C75"@,
        "#C678DD"@,
        "#282C34"@,
        "#61AFEF"@,
        "#ABB2BF"@,
        "#5C6370"@,
        "#3E4451"@,
        "#E06C75"@,
        "#98C379"@,
        "#5C6370"@,
    ]
}

/// The palette of the light-terminal theme.
pub open spec fn light_palette() -> Seq<Seq<char>> {
    seq![
        "#005F87"@,
        "#AF5F00"@,
        "#008700"@,
        "#1C1C1C"@,
        "#0087AF"@,
        "#AF0000"@,
        "#875FAF"@,
        "#EEEEEE"@,
        "#005F87"@,
        "#4E4E4E"@,
        "#9E9E9E"@,
        "#BCBCBC"@,
        "#AF0000"@,
        "#008700"@,
        "#9E9E9E"@,
    ]
}

/// The palette of the Solarized Dark theme.
pub open spec fn solarized_palette() -> Seq<Seq<char>> {
    seq![
        "#268BD2"@,
        "#B58900"@,
        "#2AA198"@,
        "#839496"@,
        "#2AA198"@,
        "#DC322F"@,
        "#D33682"@,
        "#073642"@,
        "#268BD2"@,
        "#657B83"@,
        "#586E75"@,
        "#073642"@,
        "#DC322F"@,
        "#859900"@,
        "#586E75"@,
    ]
}

/// The palette of the Nord theme.
pub open spec fn nord_palette() -> Seq<Seq<char>> {
    seq![
        "#88C0D0"@,
        "#EBCB8B"@,
        "#A3BE8C"@,
        "#D8DEE9"@,
        "#81A1C1"@,
        "#BF616A"@,
        "#B48EAD"@,
        "#2E3440"@,
        "#88C0D0"@,
        "#D8DEE9"@,
        "#4C566A"@,
        "#3B4252"@,
        "#BF616A"@,
        "#A3BE8C"@,
        "#4C566A"@,
    ]
}

/// The palette of the Dracula theme.
pub open spec fn dracula_palette() -> Seq<Seq<char>> {
    seq![
        "#8BE9FD"@,
        "#F1FA8C"@,
        "#50FA7B"@,
        "#F8F8F2"@,
        "#8BE9FD"@,
        "#FF5555"@,
        "#FF79C6"@,
        "#282A36"@,
        "#BD93F9"@,
        "#F8F8F2"@,
        "#6272A4"@,
        "#44475A"@,
        "#FF5555"@,
        "#50FA7B"@,
        "#6272A4"@,
    ]
}

/// The palette of the built-in theme called `name` (already lower-cased).
pub open spec fn builtin_palette(name: Seq<char>) -> Option<Seq<Seq<char>>> {
    if name == "dark"@ {
        Some(dark_palette())
    } else if name == "light"@ {
        Some(light_palette())
    } else if name == "solarized"@ {
        Some(solarized_palette())
    } else if name == "nord"@ {
        Some(nord_palette())
    } else if name == "dracula"@ {
        Some(dracula_palette())
    } else {
        None
    }
}

impl Theme {
    /// A theme from its fifteen colors, in declaration order.
    fn from_palette(c: [&str; 15]) -> (t: Theme)
        ensures
            t@ == Seq::new(15, |i: int| c@[i]@),
    {
        let t = Theme {
            title: owned(c[0]),
            heading: owned(c[1]),
            subheading: owned(c[2]),
            body: owned(c[3]),
            link: owned(c[4]),
            bold: owned(c[5]),
            italic: owned(c[6]),
            code: owned(c[7]),
            result_title: owned(c[8]),
            result_snippet: owned(c[9]),
            result_index: owned(c[10]),
            separator: owned(c[11]),
            error: owned(c[12]),
            success: owned(c[13]),
            dim: owned(c[14]),
        };
        assert(t@ =~= Seq::new(15, |i: int| c@[i]@));
        t
    }

    /// Classic dark-terminal theme (default).
    pub fn dark() -> (t: Theme)
        ensures
            t@ == dark_palette(),
    {
        let c = [
            "#61AFEF",
            "#E5C07B",
            "#98C379",
            "#ABB2BF",
            "#56B6C2",
            "#E06C75",
            "#C678DD",
            "#282C34",
            "#61AFEF",
            "#ABB2BF",
            "#5C6370",
            "#3E4451",
            "#E06C75",
            "#98C379",
            "#5C6370",
        ];
        let t = Self::from_palette(c);
        assert(t@ =~= dark_palette());
        t
    }

    /// Light-terminal theme.
    pub fn light() -> (t: Theme)
        ensures
            t@ == light_palette(),
    {
        let c = [
            "#005F87",
            "#AF5F00",
            "#008700",
            "#1C1C1C",
            "#0087AF",
            "#AF0000",
            "#875FAF",
            "#EEEEEE",
            "#005F87",
            "#4E4E4E",
            "#9E9E9E",
            "#BCBCBC",
            "#AF0000",
            "#008700",
            "#9E9E9E",
        ];
        let t = Self::from_palette(c);
        assert(t@ =~= light_palette());
        t
    }

    /// Solarized Dark theme.
    pub fn solarized() -> (t: Theme)
        ensures
            t@ == solarized_palette(),
    {
        let c = [
            "#268BD2",
            "#B58900",
            "#2AA198",
            "#839496",
            "#2AA198",
            "#DC322F",
            "#D33682",
            "#073642",
            "#268BD2",
            "#657B83",
            "#586E75",
            "#073642",
            "#DC322F",
            "#859900",
            "#586E75",
        ];
        let t = Self::from_palette(c);
        assert(t@ =~= solarized_palette());
        t
    }

    /// Nord theme.
    pub fn nord() -> (t: Theme)
        ensures
            t@ == nord_palette(),
    {
        let c = [
            "#88C0D0",
            "#EBCB8B",
            "#A3BE8C",
            "#D8DEE9",
            "#81A1C1",
            "#BF616A",
            "#B48EAD",
            "#2E3440",
            "#88C0D0",
            "#D8DEE9",
            "#4C566A",
            "#3B4252",
            "#BF616A",
            "#A3BE8C",
            "#4C566A",
        ];
        let t = Self::from_palette(c);
        assert(t@ =~= nord_palette());
        t
    }

    /// Dracula theme.
    pub fn dracula() -> (t: Theme)
        ensures
            t@ == dracula_palette(),
    {
        let c = [
            "#8BE9FD",
            "#F1FA8C",
            "#50FA7B",
            "#F8F8F2",
            "#8BE9FD",
            "#FF5555",
            "#FF79C6",
            "#282A36",
            "#BD93F9",
            "#F8F8F2",
            "#6272A4",
            "#44475A",
            "#FF5555",
            "#50FA7B",
            "#6272A4",
        ];
        let t = Self::from_palette(c);
        assert(t@ =~= dracula_palette());
        t
    }

    /// The built-in theme whose name is `lower`, compared exactly.
    pub fn by_lowercase_name(lower: &str) -> (r: Option<Theme>)
        ensures
            match r {
                Some(t) => builtin_palette(lower@) == Some(t@),
                None => builtin_palette(lower@) is None,
            },
    {
        let v = chars_of(lower);
        if eq_chars(&v, &chars_of("dark")) {
            Some(Self::dark())
        } else if eq_chars(&v, &chars_of("light")) {
            Some(Self::light())
        } else if eq_chars(&v, &chars_of("solarized")) {
            Some(Self::solarized())
        } else if eq_chars(&v, &chars_of("nord")) {
            Some(Self::nord())
        } else if eq_chars(&v, &chars_of("dracula")) {
            Some(Self::dracula())
        } else {
            None
        }
    }

    /// Get a built-in theme by name (case-insensitive: the name is
    /// lower-cased first).
    ///
    /// Returns `None` if the name is not recognised — caller should fall
    /// back to the user-supplied custom theme from config.
    pub fn by_name(name: &str) -> (r: Option<Theme>)
        ensures
            match r {
                Some(t) => builtin_palette(lowercase(name@)) == Some(t@),
                None => builtin_palette(lowercase(name@)) is None,
            },
            is_ascii_text(name@) ==> lowercase(name@) == ascii_lowercase(name@),
    {
        let lower = to_lowercase(name);
        Self::by_lowercase_name(lower.as_str())
    }


    // ── Colorize helpers ──────────────────────────────────────────────────────
    /// Paint text with the theme's `title` color, bold.
    pub fn title(&self, s: &str) -> (p: Paint)
        requires
            hex_ok(self.title@),
        ensures
            p.text@ == s@,
            p.fg == hex_color(self.title@),
            p.bg is None,
            p.emphasis@ == seq![Emphasis::Bold],
    {
        emphasize(colorize_hex(s, self.title.as_str()), Emphasis::Bold)
    }
    /// Paint text with the theme's `heading` color, bold.
    pub fn heading(&self, s: &str) -> (p: Paint)
        requires
            hex_ok(self.heading@),
        ensures
            p.text@ == s@,
            p.fg == hex_color(self.heading@),
            p.bg is None,
            p.emphasis@ == seq![Emphasis::Bold],
    {
        emphasize(colorize_hex(s, self.heading.as_str()), Emphasis::Bold)
    }
    /// Paint text with the theme's `subheading` color.
    pub fn subheading(&self, s: &str) -> (p: Paint)
        requires
            hex_ok(self.subheading@),
        ensures
            p.text@ == s@,
            p.fg == hex_color(self.subheading@),
            p.bg is None,
            p.emphasis@ == Seq::<Emphasis>::empty(),
    {
        colorize_hex(s, self.subheading.as_str())
    }
    /// Paint text with the theme's `body` color.
    pub fn body(&self, s: &str) -> (p: Paint)
        requires
            hex_ok(self.body@),
        ensures
            p.text@ == s@,
            p.fg == hex_color(self.body@),
            p.bg is None,
            p.emphasis@ == Seq::<Emphasis>::empty(),
    {
        colorize_hex(s, self.body.as_str())
    }
    /// Paint text with the theme's `link` color, underline.
    pub fn link(&self, s: &str) -> (p: Paint)
        requires
            hex_ok(self.link@),
        ensures
            p.text@ == s@,
            p.fg == hex_color(self.link@),
            p.bg is None,
            p.emphasis@ == seq![Emphasis::Underline],
    {
        emphasize(colorize_hex(s, self.link.as_str()), Emphasis::Underline)
    }
    /// Paint text with the theme's `bold` color, bold.
    pub fn bold_text(&self, s: &str) -> (p: Paint)
        requires
            hex_ok(self.bold@),
        ensures
            p.text@ == s@,
            p.fg == hex_color(self.bold@),
            p.bg is None,
            p.emphasis@ == seq![Emphasis::Bold],
    {
        emphasize(colorize_hex(s, self.bold.as_str()), Emphasis::Bold)
    }
    /// Paint text with the theme's `italic` color, italic.
    pub fn italic_text(&self, s: &str) -> (p: Paint)
        requires
            hex_ok(self.italic@),
        ensures
            p.text@ == s@,
            p.fg == hex_color(self.italic@),
            p.bg is None,
            p.emphasis@ == seq![Emphasis::Italic],
    {
        emphasize(colorize_hex(s, self.italic.as_str()), Emphasis::Italic)
    }
    /// Paint text with the theme's `result_title` color, bold.
    pub fn result_title(&self, s: &str) -> (p: Paint)
        requires
            hex_ok(self.result_title@),
        ensures
            p.text@ == s@,
            p.fg == hex_color(self.result_title@),
            p.bg is None,
            p.emphasis@ == seq![Emphasis::Bold],
    {
        emphasize(colorize_hex(s, self.result_title.as_str()), Emphasis::Bold)
    }
    /// Paint text with the theme's `result_snippet` color.
    pub fn result_snippet(&self, s: &str) -> (p: Paint)
        requires
            hex_ok(self.result_snippet@),
        ensures
            p.text@ == s@,
            p.fg == hex_color(self.result_snippet@),
            p.bg is None,
            p.emphasis@ == Seq::<Emphasis>::empty(),
    {
        colorize_hex(s, self.result_snippet.as_str())
    }
    /// Paint text with the theme's `result_index` color.
    pub fn result_index(&self, s: &str) -> (p: Paint)
        requires
            hex_ok(self.result_index@),
        ensures
            p.text@ == s@,
            p.fg == hex_color(self.result_index@),
            p.bg is None,
            p.emphasis@ == Seq::<Emphasis>::empty(),
    {
        colorize_hex(s, self.result_index.as_str())
    }
    /// Paint text with the theme's `separator` color.
    pub fn separator(&self, s: &str) -> (p: Paint)
        requires
            hex_ok(self.separator@),
        ensures
            p.text@ == s@,
            p.fg == hex_color(self.separator@),
            p.bg is None,
            p.emphasis@ == Seq::<Emphasis>::empty(),
    {
        colorize_hex(s, self.separator.as_str())
    }
    /// Paint text with the theme's `error` color, bold.
    pub fn error(&self, s: &str) -> (p: Paint)
        requires
            hex_ok(self.error@),
        ensures
            p.text@ == s@,
            p.fg == hex_color(self.error@),
            p.bg is None,
            p.emphasis@ == seq![Emphasis::Bold],
    {
        emphasize(colorize_hex(s, self.error.as_str()), Emphasis::Bold)
    }
    /// Paint text with the theme's `success` color.
    pub fn success(&self, s: &str) -> (p: Paint)
        requires
            hex_ok(self.success@),
        ensures
            p.text@ == s@,
            p.fg == hex_color(self.success@),
            p.bg is None,
            p.emphasis@ == Seq::<Emphasis>::empty(),
    {
        colorize_hex(s, self.success.as_str())
    }
    /// Paint text with the theme's `dim` color.
    pub fn dim(&self, s: &str) -> (p: Paint)
        requires
            hex_ok(self.dim@),
        ensures
            p.text@ == s@,
            p.fg == hex_color(self.dim@),
            p.bg is None,
            p.emphasis@ == Seq::<Emphasis>::empty(),
    {
        colorize_hex(s, self.dim.as_str())
    }
    /// Paint text in the theme's `body` color on its `code` background, or
    /// unstyled where either color is invalid.
    pub fn code_text(&self, s: &str) -> (p: Paint)
        requires
            hex_ok(self.body@),
            hex_ok(self.code@),
        ensures
            p.text@ == s@,
            p.emphasis@ == Seq::<Emphasis>::empty(),
            match (hex_color(self.body@), hex_color(self.code@)) {
                (Some(f), Some(b)) => p.fg == Some(f) && p.bg == Some(b),
                _ => p.fg is None && p.bg is None,
            },
    {
        match (hex_to_rgb(self.body.as_str()), hex_to_rgb(self.code.as_str())) {
            (Ok(f), Ok(b)) => Paint { text: owned(s), fg: Some(f), bg: Some(b), emphasis: Vec::new() },
            _ => Paint { text: owned(s), fg: None, bg: None, emphasis: Vec::new() },
        }
    }

    /// A field-by-field copy of this theme.
    pub fn duplicate(&self) -> (t: Theme)
        ensures
            t@ == self@,
    {
        Theme {
            title: self.title.clone(),
            heading: self.heading.clone(),
            subheading: self.subheading.clone(),
            body: self.body.clone(),
            link: self.link.clone(),
            bold: self.bold.clone(),
            italic: self.italic.clone(),
            code: self.code.clone(),
            result_title: self.result_title.clone(),
            result_snippet: self.result_snippet.clone(),
            result_index: self.result_index.clone(),
            separator: self.separator.clone(),
            error: self.error.clone(),
            success: self.success.clone(),
            dim: self.dim.clone(),
        }
    }
}

impl Default for Theme {
    /// The dark theme.
    fn default() -> (t: Theme)
        ensures
            t@ == dark_palette(),
    {
        Self::dark()
    }
}


// ─── Roles ───────────────────────────────────────────────────────────────────

/// The part a piece of output plays, which decides its color and emphasis.
#[derive(Debug, Clone, Copy, PartialEq, Eq)]
pub enum Role {
    Title,
    Heading,
    Subheading,
    Body,
    Link,
    BoldText,
    ItalicText,
    ResultTitle,
    ResultSnippet,
    ResultIndex,
    Separator,
    Error,
    Success,
    Dim,
}

/// The position in a theme's palette of the color a role is shown in.
pub open spec fn role_field(r: Role) -> int {
    match r {
        Role::Title => 0,
        Role::Heading => 1,
        Role::Subheading => 2,
        Role::Body => 3,
        Role::Link => 4,
        Role::BoldText => 5,
        Role::ItalicText => 6,
        Role::ResultTitle => 8,
        Role::ResultSnippet => 9,
        Role::ResultIndex => 10,
        Role::Separator => 11,
        Role::Error => 12,
        Role::Success => 13,
        Role::Dim => 14,
    }
}

/// The emphasis a role is shown with.
pub open spec fn role_emphasis(r: Role) -> Seq<Emphasis> {
    match r {
        Role::Title => seq![Emphasis::Bold],
        Role::Heading => seq![Emphasis::Bold],
        Role::Subheading => Seq::empty(),
        Role::Body => Seq::empty(),
        Role::Link => seq![Emphasis::Underline],
        Role::BoldText => seq![Emphasis::Bold],
        Role::ItalicText => seq![Emphasis::Italic],
        Role::ResultTitle => seq![Emphasis::Bold],
        Role::ResultSnippet => Seq::empty(),
        Role::ResultIndex => Seq::empty(),
        Role::Separator => Seq::empty(),
        Role::Error => seq![Emphasis::Bold],
        Role::Success => Seq::empty(),
        Role::Dim => Seq::empty(),
    }
}

/// Text in role `r`, painted with the colors of `palette`.
pub open spec fn role_paint(palette: Seq<Seq<char>>, r: Role, text: Seq<char>) -> PaintView {
    PaintView {
        text,
        fg: hex_color(palette[role_field(r)]),
        bg: None,
        emphasis: role_emphasis(r),
    }
}

impl Theme {
    /// Paint text in role `r` with this theme.
    pub fn paint(&self, r: Role, text: &str) -> (p: Paint)
        requires
            hex_ok(self@[role_field(r)]),
        ensures
            p@ == role_paint(self@, r, text@),
    {
        let p = match r {
            Role::Title => self.title(text),
            Role::Heading => self.heading(text),
            Role::Subheading => self.subheading(text),
            Role::Body => self.body(text),
            Role::Link => self.link(text),
            Role::BoldText => self.bold_text(text),
            Role::ItalicText => self.italic_text(text),
            Role::ResultTitle => self.result_title(text),
            Role::ResultSnippet => self.result_snippet(text),
            Role::ResultIndex => self.result_index(text),
            Role::Separator => self.separator(text),
            Role::Error => self.error(text),
            Role::Success => self.success(text),
            Role::Dim => self.dim(text),
        };
        assert(p@.emphasis =~= role_emphasis(r));
        p
    }
}

} // verus!

verus! {

// ─── Laws ────────────────────────────────────────────────────────────────────


proof fn lemma_hex_digit_ascii(c: char)
    requires
        is_hex_digit(c),
    ensures
        utf8_width(c) == 1,
        !is_ws(c),
        c != '#',
        c != '+',
        c != '-',
{
}

proof fn lemma_trim_plain(s: Seq<char>)
    requires
        s.len() > 0,
        !is_ws(s[0]),
        !is_ws(s.last()),
    ensures
        trim(s) == s,
{
}

/// The short form `#RGB` denotes the same color as `#RRGGBB` with every
/// digit doubled (`#f60` is `#ff6600`).
pub proof fn law_short_hex_is_doubled(a: char, b: char, c: char)
    requires
        is_hex_digit(a),
        is_hex_digit(b),
        is_hex_digit(c),
    ensures
        hex_outcome(seq!['#', a, b, c]) == hex_outcome(seq!['#', a, a, b, b, c, c]),
{
    lemma_hex_digit_ascii(a);
    lemma_hex_digit_ascii(b);
    lemma_hex_digit_ascii(c);
    let s3 = seq!['#', a, b, c];
    let s6 = seq!['#', a, a, b, b, c, c];
    lemma_trim_plain(s3);
    lemma_trim_plain(s6);
    let h3 = seq![a, b, c];
    let h6 = seq![a, a, b, b, c, c];
    assert(s3.drop_first() =~= h3);
    assert(s6.drop_first() =~= h6);
    assert(strip_hashes(h3) == h3);
    assert(strip_hashes(s3) == strip_hashes(h3));
    assert(hex_digits(s3) == h3);
    assert(strip_hashes(h6) == h6);
    assert(strip_hashes(s6) == strip_hashes(h6));
    assert(hex_digits(s6) == h6);
    reveal_with_fuel(utf8_len, 7);
    assert(h3.drop_first() =~= seq![b, c]);
    assert(seq![b, c].drop_first() =~= seq![c]);
    assert(seq![c].drop_first() =~= Seq::<char>::empty());
    assert(utf8_len(h3) == 3);
    assert(h6.drop_first() =~= seq![a, b, b, c, c]);
    assert(seq![a, b, b, c, c].drop_first() =~= seq![b, b, c, c]);
    assert(seq![b, b, c, c].drop_first() =~= seq![b, c, c]);
    assert(seq![b, c, c].drop_first() =~= seq![c, c]);
    assert(seq![c, c].drop_first() =~= seq![c]);
    assert(utf8_len(h6) == 6);
    assert(h6.subrange(0, 2) =~= seq![a, a]);
    assert(h6.subrange(2, 4) =~= seq![b, b]);
    assert(h6.subrange(4, 6) =~= seq![c, c]);
}

/// `s` is written `#` and six hexadecimal digits.
pub open spec fn long_hex(s: Seq<char>) -> bool {
    &&& s.len() == 7
    &&& s[0] == '#'
    &&& is_hex_digit(s[1])
    &&& is_hex_digit(s[2])
    &&& is_hex_digit(s[3])
    &&& is_hex_digit(s[4])
    &&& is_hex_digit(s[5])
    &&& is_hex_digit(s[6])
}

proof fn lemma_long_hex_valid(s: Seq<char>)
    requires
        long_hex(s),
    ensures
        hex_color(s) is Some,
{
    lemma_hex_digit_ascii(s[1]);
    lemma_hex_digit_ascii(s[2]);
    lemma_hex_digit_ascii(s[3]);
    lemma_hex_digit_ascii(s[4]);
    lemma_hex_digit_ascii(s[5]);
    lemma_hex_digit_ascii(s[6]);
    lemma_trim_plain(s);
    let h = s.drop_first();
    assert(strip_hashes(h) == h);
    assert(hex_digits(s) == h);
    assert(utf8_width(h[0]) == 1 && utf8_width(h[1]) == 1 && utf8_width(h[2]) == 1);
    assert(utf8_width(h[3]) == 1 && utf8_width(h[4]) == 1 && utf8_width(h[5]) == 1);
    lemma_utf8_len_ascii_prefix(h, 6);
    assert(h.skip(6) =~= Seq::<char>::empty());
    assert(h.subrange(0, 2) =~= seq![h[0], h[1]]);
    assert(h.subrange(2, 4) =~= seq![h[2], h[3]]);
    assert(h.subrange(4, 6) =~= seq![h[4], h[5]]);
}

proof fn lemma_palette_valid(p: Seq<Seq<char>>)
    requires
        p.len() == 15,
        forall|i: int| 0 <= i < 15 ==> long_hex(#[trigger] p[i]),
    ensures
        forall|i: int| 0 <= i < 15 ==> hex_color(#[trigger] p[i]) is Some,
{
    assert forall|i: int| 0 <= i < 15 implies hex_color(#[trigger] p[i]) is Some by {
        lemma_long_hex_valid(p[i]);
    }
}

/// Every color of the five built-in palettes is `#` and six hex digits.
proof fn lemma_builtin_palettes_long_hex()
    ensures
        forall|i: int| 0 <= i < 15 ==> long_hex(#[trigger] dark_palette()[i]),
        forall|i: int| 0 <= i < 15 ==> long_hex(#[trigger] light_palette()[i]),
        forall|i: int| 0 <= i < 15 ==> long_hex(#[trigger] solarized_palette()[i]),
        forall|i: int| 0 <= i < 15 ==> long_hex(#[trigger] nord_palette()[i]),
        forall|i: int| 0 <= i < 15 ==> long_hex(#[trigger] dracula_palette()[i]),
{
    reveal_strlit("#61AFEF");
    reveal_strlit("#E5C07B");
    reveal_strlit("#98C379");
    reveal_strlit("#ABB2BF");
    reveal_strlit("#56B6C2");
    reveal_strlit("#E06C75");
    reveal_strlit("#C678DD");
    reveal_strlit("#282C34");
    reveal_strlit("#5C6370");
    reveal_strlit("#3E4451");
    reveal_strlit("#005F87");
    reveal_strlit("#AF5F00");
    reveal_strlit("#008700");
    reveal_strlit("#1C1C1C");
    reveal_strlit("#0087AF");
    reveal_strlit("#AF0000");
    reveal_strlit("#875FAF");
    reveal_strlit("#EEEEEE");
    reveal_strlit("#4E4E4E");
    reveal_strlit("#9E9E9E");
    reveal_strlit("#BCBCBC");
    reveal_strlit("#268BD2");
    reveal_strlit("#B58900");
    reveal_strlit("#2AA198");
    reveal_strlit("#839496");
    reveal_strlit("#DC322F");
    reveal_strlit("#D33682");
    reveal_strlit("#073642");
    reveal_strlit("#657B83");
    reveal_strlit("#586E75");
    reveal_strlit("#859900");
    reveal_strlit("#88C0D0");
    reveal_strlit("#EBCB8B");
    reveal_strlit("#A3BE8C");
    reveal_strlit("#D8DEE9");
    reveal_strlit("#81A1C1");
    reveal_strlit("#BF616A");
    reveal_strlit("#B48EAD");
    reveal_strlit("#2E3440");
    reveal_strlit("#4C566A");
    reveal_strlit("#3B4252");
    reveal_strlit("#8BE9FD");
    reveal_strlit("#F1FA8C");
    reveal_strlit("#50FA7B");
    reveal_strlit("#F8F8F2");
    reveal_strlit("#FF5555");
    reveal_strlit("#FF79C6");
    reveal_strlit("#282A36");
    reveal_strlit("#BD93F9");
    reveal_strlit("#6272A4");
    reveal_strlit("#44475A");
    assert(long_hex("#61AFEF"@));
    assert(long_hex("#E5C07B"@));
    assert(long_hex("#98C379"@));
    assert(long_hex("#ABB2BF"@));
    assert(long_hex("#56B6C2"@));
    assert(long_hex("#E06C75"@));
    assert(long_hex("#C678DD"@));
    assert(long_hex("#282C34"@));
    assert(long_hex("#5C6370"@));
    assert(long_hex("#3E4451"@));
    assert(long_hex("#005F87"@));
    assert(long_hex("#AF5F00"@));
    assert(long_hex("#008700"@));
    assert(long_hex("#1C1C1C"@));
    assert(long_hex("#0087AF"@));
    assert(long_hex("#AF0000"@));
    assert(long_hex("#875FAF"@));
    assert(long_hex("#EEEEEE"@));
    assert(long_hex("#4E4E4E"@));
    assert(long_hex("#9E9E9E"@));
    assert(long_hex("#BCBCBC"@));
    assert(long_hex("#268BD2"@));
    assert(long_hex("#B58900"@));
    assert(long_hex("#2AA198"@));
    assert(long_hex("#839496"@));
    assert(long_hex("#DC322F"@));
    assert(long_hex("#D33682"@));
    assert(long_hex("#073642"@));
    assert(long_hex("#657B83"@));
    assert(long_hex("#586E75"@));
    assert(long_hex("#859900"@));
    assert(long_hex("#88C0D0"@));
    assert(long_hex("#EBCB8B"@));
    assert(long_hex("#A3BE8C"@));
    assert(long_hex("#D8DEE9"@));
    assert(long_hex("#81A1C1"@));
    assert(long_hex("#BF616A"@));
    assert(long_hex("#B48EAD"@));
    assert(long_hex("#2E3440"@));
    assert(long_hex("#4C566A"@));
    assert(long_hex("#3B4252"@));
    assert(long_hex("#8BE9FD"@));
    assert(long_hex("#F1FA8C"@));
    assert(long_hex("#50FA7B"@));
    assert(long_hex("#F8F8F2"@));
    assert(long_hex("#FF5555"@));
    assert(long_hex("#FF79C6"@));
    assert(long_hex("#282A36"@));
    assert(long_hex("#BD93F9"@));
    assert(long_hex("#6272A4"@));
    assert(long_hex("#44475A"@));
    assert forall|i: int| 0 <= i < 15 implies long_hex(#[trigger] dark_palette()[i]) by {}
    assert forall|i: int| 0 <= i < 15 implies long_hex(#[trigger] light_palette()[i]) by {}
    assert forall|i: int| 0 <= i < 15 implies long_hex(#[trigger] solarized_palette()[i]) by {}
    assert forall|i: int| 0 <= i < 15 implies long_hex(#[trigger] nord_palette()[i]) by {}
    assert forall|i: int| 0 <= i < 15 implies long_hex(#[trigger] dracula_palette()[i]) by {}
}

/// The built-in themes by name (already lower-cased): `dark`, `light`,
/// `solarized`, `nord` and `dracula`; any other name, `custom` among them,
/// names none.
pub proof fn law_builtin_theme_names(name: Seq<char>)
    ensures
        builtin_palette("dark"@) == Some(dark_palette()),
        builtin_palette("light"@) == Some(light_palette()),
        builtin_palette("solarized"@) == Some(solarized_palette()),
        builtin_palette("nord"@) == Some(nord_palette()),
        builtin_palette("dracula"@) == Some(dracula_palette()),
        builtin_palette(name) is Some <==> (name == "dark"@ || name == "light"@ || name
            == "solarized"@ || name == "nord"@ || name == "dracula"@),
        builtin_palette("custom"@) is None,
{
    reveal_strlit("dark");
    reveal_strlit("light");
    reveal_strlit("solarized");
    reveal_strlit("nord");
    reveal_strlit("dracula");
    reveal_strlit("custom");
    assert("custom"@[0] != "dark"@[0] && "custom"@[0] != "light"@[0]);
    assert("custom"@[0] != "solarized"@[0] && "custom"@[0] != "nord"@[0]);
    assert("custom"@[1] != "dracula"@[1]);
    assert("light"@[0] != "dark"@[0]);
    assert("solarized"@[0] != "dark"@[0] && "solarized"@[0] != "light"@[0]);
    assert("nord"@[0] != "dark"@[0] && "nord"@[0] != "light"@[0] && "nord"@[0] != "solarized"@[0]);
    assert("dracula"@[1] != "dark"@[1] && "dracula"@[0] != "light"@[0]);
    assert("dracula"@[0] != "solarized"@[0] && "dracula"@[0] != "nord"@[0]);
}

/// Every color of every built-in theme is `#` and six hex digits, hence a
/// valid hex color, so the built-in themes color all their roles.
pub proof fn law_builtin_colors_are_valid(name: Seq<char>)
    ensures
        builtin_palette(name) matches Some(p) ==> p.len() == 15 && (forall|i: int|
            0 <= i < 15 ==> long_hex(#[trigger] p[i])) && (forall|i: int|
            0 <= i < 15 ==> hex_color(#[trigger] p[i]) is Some),
{
    lemma_builtin_palettes_long_hex();
    if let Some(p) = builtin_palette(name) {
        assert(p.len() == 15 && forall|i: int| 0 <= i < 15 ==> long_hex(#[trigger] p[i]));
        lemma_palette_valid(p);
    }
}

/// The leading `#` is optional: a color string without surrounding
/// whitespace means the same with and without one more `#` in front.
pub proof fn law_hash_is_optional(s: Seq<char>)
    requires
        s.len() == 0 || (!is_ws(s[0]) && !is_ws(s.last())),
    ensures
        hex_outcome(seq!['#'] + s) == hex_outcome(s),
{
    let t = seq!['#'] + s;
    assert(t.drop_first() =~= s);
    if s.len() > 0 {
        lemma_trim_plain(s);
        assert(t.last() == s.last());
        lemma_trim_plain(t);
    } else {
        assert(t =~= seq!['#']);
        assert(trim(t) == t);
        assert(trim(s) == s);
    }
}

} // verus!
