//! Character-level text helpers shared by the whole library, each with the
//! mathematical statement of what it computes.
//!
//! Text is modelled as `Seq<char>`, the view of `str` and `String`.

use vstd::prelude::*;

verus! {

// ─── Specifications ──────────────────────────────────────────────────────────

/// The Unicode `White_Space` property (what `char::is_whitespace` tests).
pub open spec fn is_ws(c: char) -> bool {
    let u = c as u32;
    ||| 0x09 <= u <= 0x0D
    ||| u == 0x20
    ||| u == 0x85
    ||| u == 0xA0
    ||| u == 0x1680
    ||| 0x2000 <= u <= 0x200A
    ||| u == 0x2028
    ||| u == 0x2029
    ||| u == 0x202F
    ||| u == 0x205F
    ||| u == 0x3000
}

/// `s` without its leading whitespace (`str::trim_start`).
pub open spec fn trim_start(s: Seq<char>) -> Seq<char>
    decreases s.len(),
{
    if s.len() > 0 && is_ws(s[0]) {
        trim_start(s.drop_first())
    } else {
        s
    }
}

/// `s` without its trailing whitespace (`str::trim_end`).
pub open spec fn trim_end(s: Seq<char>) -> Seq<char>
    decreases s.len(),
{
    if s.len() > 0 && is_ws(s.last()) {
        trim_end(s.drop_last())
    } else {
        s
    }
}

/// `s` without leading and trailing whitespace (`str::trim`).
pub open spec fn trim(s: Seq<char>) -> Seq<char> {
    trim_end(trim_start(s))
}

/// `p` is a prefix of `s`.
pub open spec fn starts_with(s: Seq<char>, p: Seq<char>) -> bool {
    p.len() <= s.len() && s.subrange(0, p.len() as int) == p
}

/// `p` is a suffix of `s`.
pub open spec fn ends_with(s: Seq<char>, p: Seq<char>) -> bool {
    p.len() <= s.len() && s.subrange(s.len() - p.len(), s.len() as int) == p
}

/// `p` occurs in `s` starting at position `i`.
pub open spec fn occurs_at(s: Seq<char>, p: Seq<char>, i: int) -> bool {
    0 <= i && i + p.len() <= s.len() && s.subrange(i, i + p.len()) == p
}

/// `p` occurs somewhere in `s` (`str::contains`).
pub open spec fn contains(s: Seq<char>, p: Seq<char>) -> bool {
    exists|i: int| occurs_at(s, p, i)
}

/// `c` occurs in `s`.
pub open spec fn has_char(s: Seq<char>, c: char) -> bool {
    exists|i: int| 0 <= i < s.len() && s[i] == c
}

/// Every non-overlapping occurrence of `from`, scanning left to right, is
/// replaced by `to` (`str::replace`, for a non-empty `from`).
pub open spec fn replace(s: Seq<char>, from: Seq<char>, to: Seq<char>) -> Seq<char>
    decreases s.len(),
{
    if from.len() == 0 || s.len() < from.len() {
        s
    } else if s.subrange(0, from.len() as int) == from {
        to + replace(s.skip(from.len() as int), from, to)
    } else {
        seq![s[0]] + replace(s.drop_first(), from, to)
    }
}

/// The pieces of `s` between the occurrences of `c`; there is always one
/// more piece than there are occurrences (`str::split` on a char).
pub open spec fn split(s: Seq<char>, c: char) -> Seq<Seq<char>>
    decreases s.len(),
{
    if s.len() == 0 {
        seq![Seq::<char>::empty()]
    } else {
        let rest = split(s.drop_first(), c);
        if s[0] == c {
            seq![Seq::<char>::empty()] + rest
        } else {
            rest.update(0, seq![s[0]] + rest[0])
        }
    }
}

/// `s` without one trailing carriage return, if it has one.
pub open spec fn strip_cr(s: Seq<char>) -> Seq<char> {
    if s.len() > 0 && s.last() == '\r' {
        s.drop_last()
    } else {
        s
    }
}

/// The lines of `s` as `str::lines` yields them: split at `\n`, a `\r`
/// directly before a `\n` dropped, and no empty line after a final `\n`.
pub open spec fn lines(s: Seq<char>) -> Seq<Seq<char>> {
    let parts = split(s, '\n');
    let n = parts.len() - 1;
    let body = Seq::new(n as nat, |i: int| strip_cr(parts[i]));
    if parts[n].len() == 0 {
        body
    } else {
        body.push(parts[n])
    }
}

/// ASCII lower-casing of one character (`char::to_ascii_lowercase`).
pub open spec fn ascii_lower(c: char) -> char {
    if 'A' <= c && c <= 'Z' {
        ((c as u32) + 32) as char
    } else {
        c
    }
}

/// `a` and `b` are equal ignoring ASCII case (`str::eq_ignore_ascii_case`).
pub open spec fn eq_ignore_ascii_case(a: Seq<char>, b: Seq<char>) -> bool {
    a.len() == b.len() && forall|i: int|
        0 <= i < a.len() ==> ascii_lower(#[trigger] a[i]) == ascii_lower(b[i])
}

/// Every character of `s` is ASCII.
pub open spec fn is_ascii_text(s: Seq<char>) -> bool {
    forall|i: int| 0 <= i < s.len() ==> (#[trigger] s[i] as u32) < 0x80
}

/// `s` with its ASCII capitals lower-cased.
pub open spec fn ascii_lowercase(s: Seq<char>) -> Seq<char> {
    s.map_values(|c: char| ascii_lower(c))
}

/// The Unicode lower-case form of `s`, as `str::to_lowercase` computes it.
pub uninterp spec fn lowercase(s: Seq<char>) -> Seq<char>;

/// The decimal digit for `d < 10`.
pub open spec fn digit_char(d: nat) -> char {
    ((d + 48) as u32) as char
}

/// The decimal notation of `n`, as `Display` writes unsigned integers.
pub open spec fn decimal(n: nat) -> Seq<char>
    decreases n,
{
    if n < 10 {
        seq![digit_char(n)]
    } else {
        decimal(n / 10).push(digit_char(n % 10))
    }
}

/// The value of digit `c` in base `radix` (2..=36), as `char::to_digit`.
pub open spec fn digit_value(c: char, radix: nat) -> Option<nat> {
    let u = c as u32;
    let v: int = if '0' <= c && c <= '9' {
        u - 48
    } else if 'a' <= c && c <= 'z' {
        u - 97 + 10
    } else if 'A' <= c && c <= 'Z' {
        u - 65 + 10
    } else {
        99
    };
    if v < radix {
        Some(v as nat)
    } else {
        None
    }
}

/// Every character of `ds` is a digit in base `radix`.
pub open spec fn all_digits(ds: Seq<char>, radix: nat) -> bool {
    forall|i: int| 0 <= i < ds.len() ==> (#[trigger] digit_value(ds[i], radix)) is Some
}

/// The number that the digits `ds` denote in base `radix`.
pub open spec fn digits_value(ds: Seq<char>, radix: nat) -> nat
    decreases ds.len(),
{
    if ds.len() == 0 {
        0
    } else {
        digits_value(ds.drop_last(), radix) * radix + digit_value(ds.last(), radix)->0
    }
}

/// What `from_str_radix` of an unsigned integer type with largest value
/// `max` gives for `s`: an optional `+`, then one or more digits, and a
/// value that fits.
pub open spec fn parse_unsigned(s: Seq<char>, radix: nat, max: nat) -> Option<nat> {
    if s.len() == 0 || (s.len() == 1 && (s[0] == '+' || s[0] == '-')) {
        None
    } else {
        let ds = if s[0] == '+' {
            s.drop_first()
        } else {
            s
        };
        if all_digits(ds, radix) && digits_value(ds, radix) <= max {
            Some(digits_value(ds, radix))
        } else {
            None
        }
    }
}

/// Concatenation of a sequence of texts.
pub open spec fn concat(parts: Seq<Seq<char>>) -> Seq<char>
    decreases parts.len(),
{
    if parts.len() == 0 {
        Seq::empty()
    } else {
        concat(parts.drop_last()) + parts.last()
    }
}

/// `parts` joined with `sep` between neighbours (`[T]::join`).
pub open spec fn join(parts: Seq<Seq<char>>, sep: Seq<char>) -> Seq<char>
    decreases parts.len(),
{
    if parts.len() == 0 {
        Seq::empty()
    } else if parts.len() == 1 {
        parts[0]
    } else {
        join(parts.drop_last(), sep) + sep + parts.last()
    }
}

/// The first `n` elements of `s`, or all of them where there are fewer
/// (`Iterator::take`).
pub open spec fn first_n<A>(s: Seq<A>, n: nat) -> Seq<A> {
    if s.len() <= n {
        s
    } else {
        s.take(n as int)
    }
}

/// The text of `n` copies of `s` (`str::repeat`).
pub open spec fn repeat(s: Seq<char>, n: nat) -> Seq<char>
    decreases n,
{
    if n == 0 {
        Seq::empty()
    } else {
        repeat(s, (n - 1) as nat) + s
    }
}

// ─── Lemmas ──────────────────────────────────────────────────────────────────

pub proof fn lemma_trim_start_skip(s: Seq<char>, i: int)
    requires
        0 <= i < s.len(),
        is_ws(s[i]),
        trim_start(s) == trim_start(s.skip(i)),
    ensures
        trim_start(s) == trim_start(s.skip(i + 1)),
{
    assert(s.skip(i).drop_first() =~= s.skip(i + 1));
}

pub proof fn lemma_trim_end_take(s: Seq<char>, j: int)
    requires
        0 < j <= s.len(),
        is_ws(s[j - 1]),
        trim_end(s) == trim_end(s.take(j)),
    ensures
        trim_end(s) == trim_end(s.take(j - 1)),
{
    assert(s.take(j).drop_last() =~= s.take(j - 1));
}

/// `decimal` only produces ASCII digits and is never empty.
pub proof fn lemma_decimal_digits(n: nat)
    ensures
        decimal(n).len() >= 1,
        forall|i: int| 0 <= i < decimal(n).len() ==> '0' <= #[trigger] decimal(n)[i] <= '9',
    decreases n,
{
    if n >= 10 {
        lemma_decimal_digits(n / 10);
    }
}

// ─── Conversions ─────────────────────────────────────────────────────────────

/// Appends one character to a `String` (`String::push`).
#[verifier::external_body]
pub(crate) fn push_char(s: &mut String, c: char)
    ensures
        final(s)@ == old(s)@.push(c),
{
    s.push(c);
}

/// Lower-cases `s` with `str::to_lowercase`. The contract names the result
/// `lowercase(s)`: the Unicode lower-case mapping (with the final-sigma
/// rule) is a function of `s` alone. Of ASCII text it states the mapping
/// (`A`-`Z` to `a`-`z`, every other ASCII character kept); what it maps
/// other characters to is left unsaid.
#[verifier::external_body]
pub(crate) fn to_lowercase(s: &str) -> (r: String)
    ensures
        r@ == lowercase(s@),
        is_ascii_text(s@) ==> r@ == ascii_lowercase(s@),
{
    s.to_lowercase()
}

/// The characters of `s`, in order.
pub fn chars_of(s: &str) -> (v: Vec<char>)
    ensures
        v@ == s@,
{
    let mut v: Vec<char> = Vec::new();
    for c in it: s.chars()
        invariant
            v@ == it.seq().take(it.index() as int),
    {
        v.push(c);
    }
    v
}

/// A `String` holding the characters of `v`.
pub fn string_of(v: &[char]) -> (s: String)
    ensures
        s@ == v@,
{
    let mut s = String::new();
    let mut i: usize = 0;
    while i < v.len()
        invariant
            0 <= i <= v.len(),
            s@ == v@.take(i as int),
        decreases v.len() - i,
    {
        push_char(&mut s, v[i]);
        assert(v@.take(i as int).push(v@[i as int]) =~= v@.take(i + 1));
        i = i + 1;
    }
    assert(v@.take(v.len() as int) =~= v@);
    s
}

/// `v` followed by the characters of `s`.
pub fn extend_str(v: &mut Vec<char>, s: &str)
    ensures
        final(v)@ == old(v)@ + s@,
{
    let w = chars_of(s);
    extend_chars(v, &w);
}

/// `v` followed by the characters of `w`.
pub fn extend_chars(v: &mut Vec<char>, w: &[char])
    ensures
        final(v)@ == old(v)@ + w@,
{
    let ghost v0 = v@;
    let mut i: usize = 0;
    while i < w.len()
        invariant
            0 <= i <= w.len(),
            v@ == v0 + w@.take(i as int),
        decreases w.len() - i,
    {
        v.push(w[i]);
        assert(v0 + w@.take(i + 1) =~= (v0 + w@.take(i as int)).push(w@[i as int]));
        i = i + 1;
    }
    assert(w@.take(w.len() as int) =~= w@);
}

/// The characters `v[from..to]`.
pub fn slice_chars(v: &[char], from: usize, to: usize) -> (r: Vec<char>)
    requires
        from <= to <= v.len(),
    ensures
        r@ == v@.subrange(from as int, to as int),
{
    let mut r: Vec<char> = Vec::new();
    let mut i: usize = from;
    while i < to
        invariant
            from <= i <= to <= v.len(),
            r@ == v@.subrange(from as int, i as int),
        decreases to - i,
    {
        r.push(v[i]);
        assert(v@.subrange(from as int, i + 1) =~= v@.subrange(from as int, i as int).push(
            v@[i as int],
        ));
        i = i + 1;
    }
    r
}

// ─── Predicates ──────────────────────────────────────────────────────────────

/// `char::is_whitespace`.
pub fn is_whitespace(c: char) -> (b: bool)
    ensures
        b == is_ws(c),
{
    let u = c as u32;
    (0x09 <= u && u <= 0x0D) || u == 0x20 || u == 0x85 || u == 0xA0 || u == 0x1680 || (0x2000
        <= u && u <= 0x200A) || u == 0x2028 || u == 0x2029 || u == 0x202F || u == 0x205F || u
        == 0x3000
}

/// `p` occurs in `v` at position `i`.
pub fn occurs_at_exec(v: &[char], p: &[char], i: usize) -> (b: bool)
    ensures
        b == occurs_at(v@, p@, i as int),
{
    if i > v.len() || p.len() > v.len() - i {
        return false;
    }
    let mut k: usize = 0;
    while k < p.len()
        invariant
            0 <= k <= p.len(),
            i + p.len() <= v.len(),
            forall|j: int| 0 <= j < k ==> v@[i + j] == p@[j],
        decreases p.len() - k,
    {
        if v[i + k] != p[k] {
            assert(v@.subrange(i as int, i + p.len())[k as int] != p@[k as int]);
            return false;
        }
        k = k + 1;
    }
    assert(v@.subrange(i as int, i + p.len()) =~= p@);
    true
}

/// `p` is a prefix of `v`.
pub fn starts_with_exec(v: &[char], p: &[char]) -> (b: bool)
    ensures
        b == starts_with(v@, p@),
{
    occurs_at_exec(v, p, 0)
}

/// `a` and `b` hold the same characters.
pub fn eq_chars(a: &[char], b: &[char]) -> (r: bool)
    ensures
        r == (a@ == b@),
{
    if a.len() != b.len() {
        return false;
    }
    let r = occurs_at_exec(a, b, 0);
    assert(a@.subrange(0, b@.len() as int) =~= a@);
    r
}

/// A `String` with the characters of `s`.
pub fn owned(s: &str) -> (r: String)
    ensures
        r@ == s@,
{
    let v = chars_of(s);
    string_of(&v)
}

/// `p` is a suffix of `v`.
pub fn ends_with_exec(v: &[char], p: &[char]) -> (b: bool)
    ensures
        b == ends_with(v@, p@),
{
    if p.len() > v.len() {
        return false;
    }
    occurs_at_exec(v, p, v.len() - p.len())
}

/// The first position at or after `from` where `p` occurs in `v`, if any.
pub fn find_from(v: &[char], p: &[char], from: usize) -> (r: Option<usize>)
    requires
        from <= v.len(),
    ensures
        match r {
            Some(i) => from <= i && occurs_at(v@, p@, i as int) && forall|j: int|
                from <= j < i ==> !occurs_at(v@, p@, j),
            None => forall|j: int| from <= j ==> !occurs_at(v@, p@, j),
        },
{
    let mut i: usize = from;
    while i < v.len()
        invariant
            from <= i <= v.len(),
            forall|j: int| from <= j < i ==> !occurs_at(v@, p@, j),
        decreases v.len() - i,
    {
        if occurs_at_exec(v, p, i) {
            return Some(i);
        }
        i = i + 1;
    }
    if occurs_at_exec(v, p, i) {
        return Some(i);
    }
    None
}

/// `p` occurs in `v`.
pub fn contains_exec(v: &[char], p: &[char]) -> (b: bool)
    ensures
        b == contains(v@, p@),
{
    match find_from(v, p, 0) {
        Some(i) => true,
        None => {
            assert forall|j: int| !occurs_at(v@, p@, j) by {
                if j >= 0 {
                }
            }
            false
        },
    }
}

/// `str::eq_ignore_ascii_case`.
pub fn eq_ignore_ascii_case_exec(a: &[char], b: &[char]) -> (r: bool)
    ensures
        r == eq_ignore_ascii_case(a@, b@),
{
    if a.len() != b.len() {
        return false;
    }
    let mut i: usize = 0;
    while i < a.len()
        invariant
            0 <= i <= a.len(),
            a.len() == b.len(),
            forall|j: int| 0 <= j < i ==> ascii_lower(#[trigger] a@[j]) == ascii_lower(b@[j]),
        decreases a.len() - i,
    {
        if to_ascii_lower(a[i]) != to_ascii_lower(b[i]) {
            return false;
        }
        i = i + 1;
    }
    true
}

/// `char::to_ascii_lowercase`.
pub fn to_ascii_lower(c: char) -> (r: char)
    ensures
        r == ascii_lower(c),
{
    if 'A' <= c && c <= 'Z' {
        let u = (c as u32) + 32;
        // 'a'..='z' are the 26 code points from 0x61
        char_from_ascii(u)
    } else {
        c
    }
}

/// The character with ASCII code `u`.
fn char_from_ascii(u: u32) -> (c: char)
    requires
        u < 128,
    ensures
        c == u as char,
{
    let b = u as u8;
    b as char
}

// ─── Trimming ────────────────────────────────────────────────────────────────

/// The number of leading whitespace characters of `v`.
pub fn leading_ws(v: &[char]) -> (n: usize)
    ensures
        n <= v.len(),
        trim_start(v@) == v@.skip(n as int),
{
    let mut i: usize = 0;
    assert(v@.skip(0) =~= v@);
    while i < v.len() && is_whitespace(v[i])
        invariant
            0 <= i <= v.len(),
            trim_start(v@) == trim_start(v@.skip(i as int)),
        decreases v.len() - i,
    {
        proof {
            lemma_trim_start_skip(v@, i as int);
        }
        i = i + 1;
    }
    assert(trim_start(v@.skip(i as int)) == v@.skip(i as int));
    i
}

/// The length of `v` without its trailing whitespace.
pub fn trimmed_end_len(v: &[char]) -> (n: usize)
    ensures
        n <= v.len(),
        trim_end(v@) == v@.take(n as int),
{
    let mut j: usize = v.len();
    assert(v@.take(j as int) =~= v@);
    while j > 0 && is_whitespace(v[j - 1])
        invariant
            0 <= j <= v.len(),
            trim_end(v@) == trim_end(v@.take(j as int)),
        decreases j,
    {
        proof {
            lemma_trim_end_take(v@, j as int);
        }
        j = j - 1;
    }
    assert(trim_end(v@.take(j as int)) == v@.take(j as int));
    j
}

/// `str::trim_start`.
pub fn trim_start_exec(v: &[char]) -> (r: Vec<char>)
    ensures
        r@ == trim_start(v@),
{
    let i = leading_ws(v);
    slice_chars(v, i, v.len())
}

/// `str::trim_end`.
pub fn trim_end_exec(v: &[char]) -> (r: Vec<char>)
    ensures
        r@ == trim_end(v@),
{
    let j = trimmed_end_len(v);
    slice_chars(v, 0, j)
}

/// `str::trim`.
pub fn trim_exec(v: &[char]) -> (r: Vec<char>)
    ensures
        r@ == trim(v@),
{
    let s = trim_start_exec(v);
    trim_end_exec(&s)
}

// ─── Replacing, splitting, joining ───────────────────────────────────────────

/// `str::replace` with a non-empty pattern.
pub fn replace_exec(v: &[char], from: &[char], to: &[char]) -> (r: Vec<char>)
    ensures
        r@ == replace(v@, from@, to@),
{
    if from.len() == 0 {
        return slice_chars(v, 0, v.len());
    }
    let mut out: Vec<char> = Vec::new();
    let mut i: usize = 0;
    assert(v@.skip(0) =~= v@);
    while i < v.len()
        invariant
            0 <= i <= v.len(),
            from.len() > 0,
            out@ + replace(v@.skip(i as int), from@, to@) == replace(v@, from@, to@),
        decreases v.len() - i,
    {
        let ghost rest = v@.skip(i as int);
        if occurs_at_exec(v, from, i) {
            proof {
                assert(rest.subrange(0, from@.len() as int) =~= v@.subrange(
                    i as int,
                    i + from@.len(),
                ));
                assert(rest.skip(from@.len() as int) =~= v@.skip(i + from@.len()));
            }
            let ghost out0 = out@;
            extend_chars(&mut out, to);
            assert(out@ + replace(v@.skip(i + from@.len()), from@, to@) =~= out0 + replace(
                rest,
                from@,
                to@,
            ));
            i = i + from.len();
        } else {
            proof {
                if rest.len() >= from@.len() {
                    assert(rest.subrange(0, from@.len() as int) =~= v@.subrange(
                        i as int,
                        i + from@.len(),
                    ));
                }
                assert(rest.drop_first() =~= v@.skip(i + 1));
            }
            let ghost out0 = out@;
            out.push(v[i]);
            assert(out@ + replace(v@.skip(i + 1), from@, to@) =~= out0 + replace(
                rest,
                from@,
                to@,
            ));
            i = i + 1;
        }
    }
    assert(v@.skip(i as int) =~= Seq::<char>::empty());
    assert(out@ + Seq::<char>::empty() =~= out@);
    out
}

/// `split` of a text that starts with a piece `cur` already read.
pub open spec fn split_with(cur: Seq<char>, rest: Seq<char>, c: char) -> Seq<Seq<char>> {
    let parts = split(rest, c);
    parts.update(0, cur + parts[0])
}

proof fn lemma_split_nonempty(s: Seq<char>, c: char)
    ensures
        split(s, c).len() >= 1,
    decreases s.len(),
{
    if s.len() > 0 {
        lemma_split_nonempty(s.drop_first(), c);
    }
}

/// The pieces of `v` between occurrences of `c` (`str::split`).
pub fn split_exec(v: &[char], c: char) -> (r: Vec<Vec<char>>)
    ensures
        r@.len() == split(v@, c).len(),
        forall|k: int| 0 <= k < r@.len() ==> (#[trigger] r@[k])@ == split(v@, c)[k],
{
    let mut done: Vec<Vec<char>> = Vec::new();
    let mut cur: Vec<char> = Vec::new();
    let mut i: usize = 0;
    let ghost mut dv: Seq<Seq<char>> = Seq::empty();
    assert(v@.skip(0) =~= v@);
    assert(split_with(cur@, v@, c) =~= split(v@, c)) by {
        lemma_split_nonempty(v@, c);
        assert(Seq::<char>::empty() + split(v@, c)[0] =~= split(v@, c)[0]);
    }
    while i < v.len()
        invariant
            0 <= i <= v.len(),
            dv.len() == done@.len(),
            forall|k: int| 0 <= k < dv.len() ==> (#[trigger] done@[k])@ == dv[k],
            dv + split_with(cur@, v@.skip(i as int), c) == split(v@, c),
        decreases v.len() - i,
    {
        let ghost rest = v@.skip(i as int);
        proof {
            assert(rest.drop_first() =~= v@.skip(i + 1));
            lemma_split_nonempty(v@.skip(i + 1), c);
        }
        if v[i] == c {
            let piece = slice_chars(&cur, 0, cur.len());
            assert(piece@ =~= cur@);
            done.push(piece);
            proof {
                let tail = split(v@.skip(i + 1), c);
                assert(split(rest, c) == seq![Seq::<char>::empty()] + tail);
                assert(Seq::<char>::empty() + tail[0] =~= tail[0]);
                assert(dv.push(cur@) + split_with(Seq::empty(), v@.skip(i + 1), c) =~= dv
                    + split_with(cur@, rest, c));
                dv = dv.push(cur@);
            }
            cur = Vec::new();
        } else {
            proof {
                let tail = split(v@.skip(i + 1), c);
                assert(split(rest, c) == tail.update(0, seq![v@[i as int]] + tail[0]));
                assert(cur@.push(v@[i as int]) + tail[0] =~= cur@ + (seq![v@[i as int]]
                    + tail[0]));
                assert(split_with(cur@.push(v@[i as int]), v@.skip(i + 1), c) =~= split_with(
                    cur@,
                    rest,
                    c,
                ));
            }
            cur.push(v[i]);
        }
        i = i + 1;
    }
    proof {
        assert(v@.skip(i as int) =~= Seq::<char>::empty());
        assert(split_with(cur@, Seq::<char>::empty(), c) =~= seq![cur@]);
    }
    let ghost dv0 = dv;
    done.push(cur);
    proof {
        dv = dv.push(done@[done@.len() - 1]@);
        assert(dv =~= split(v@, c));
    }
    done
}

/// The lines of `v` (`str::lines`).
pub fn lines_exec(v: &[char]) -> (r: Vec<Vec<char>>)
    ensures
        r@.len() == lines(v@).len(),
        forall|k: int| 0 <= k < r@.len() ==> (#[trigger] r@[k])@ == lines(v@)[k],
{
    let parts = split_exec(v, '\n');
    proof {
        lemma_split_nonempty(v@, '\n');
    }
    let ghost sp = split(v@, '\n');
    let ghost n = sp.len() - 1;
    let ghost body = Seq::new(n as nat, |i: int| strip_cr(sp[i]));
    let mut out: Vec<Vec<char>> = Vec::new();
    let mut k: usize = 0;
    let last = parts.len() - 1;
    while k < last
        invariant
            0 <= k <= last,
            last == parts@.len() - 1,
            parts@.len() == sp.len(),
            n == last,
            body == Seq::new(n as nat, |i: int| strip_cr(sp[i])),
            forall|j: int| 0 <= j < parts@.len() ==> (#[trigger] parts@[j])@ == sp[j],
            out@.len() == k,
            forall|j: int| 0 <= j < k ==> (#[trigger] out@[j])@ == body[j],
        decreases last - k,
    {
        let p = &parts[k];
        let q = if p.len() > 0 && p[p.len() - 1] == '\r' {
            slice_chars(p, 0, p.len() - 1)
        } else {
            slice_chars(p, 0, p.len())
        };
        assert(q@ =~= strip_cr(sp[k as int]));
        out.push(q);
        k = k + 1;
    }
    if parts[last].len() != 0 {
        let q = slice_chars(&parts[last], 0, parts[last].len());
        out.push(q);
    }
    out
}

/// `parts` joined with `sep` between neighbours.
pub fn join_exec(parts: &Vec<Vec<char>>, sep: &[char]) -> (r: Vec<char>)
    ensures
        r@ == join(parts@.map_values(|p: Vec<char>| p@), sep@),
{
    let ghost ps = parts@.map_values(|p: Vec<char>| p@);
    let mut out: Vec<char> = Vec::new();
    let mut i: usize = 0;
    while i < parts.len()
        invariant
            0 <= i <= parts.len(),
            ps == parts@.map_values(|p: Vec<char>| p@),
            out@ == join(ps.take(i as int), sep@),
        decreases parts.len() - i,
    {
        if i > 0 {
            extend_chars(&mut out, sep);
        }
        extend_chars(&mut out, &parts[i]);
        proof {
            let t = ps.take(i + 1);
            assert(t.drop_last() =~= ps.take(i as int));
            if i == 0 {
                assert(join(ps.take(0), sep@) =~= Seq::<char>::empty());
                assert(Seq::<char>::empty() + parts@[0]@ =~= parts@[0]@);
            }
        }
        i = i + 1;
    }
    assert(ps.take(parts.len() as int) =~= ps);
    out
}

/// `s` repeated `n` times.
pub fn repeat_exec(s: &[char], n: usize) -> (r: Vec<char>)
    ensures
        r@ == repeat(s@, n as nat),
{
    let mut out: Vec<char> = Vec::new();
    let mut i: usize = 0;
    while i < n
        invariant
            0 <= i <= n,
            out@ == repeat(s@, i as nat),
        decreases n - i,
    {
        extend_chars(&mut out, s);
        i = i + 1;
    }
    out
}

// ─── Numbers ─────────────────────────────────────────────────────────────────

/// The decimal notation of `n`.
pub fn decimal_exec(n: u64) -> (r: Vec<char>)
    ensures
        r@ == decimal(n as nat),
    decreases n,
{
    if n < 10 {
        let mut r = Vec::new();
        r.push(char_from_ascii((n + 48) as u32));
        r
    } else {
        let mut r = decimal_exec(n / 10);
        r.push(char_from_ascii((n % 10 + 48) as u32));
        r
    }
}

/// The value of `c` as a digit in base `radix`.
pub fn digit_value_exec(c: char, radix: u32) -> (r: Option<u32>)
    requires
        2 <= radix <= 36,
    ensures
        match r {
            Some(d) => digit_value(c, radix as nat) == Some(d as nat),
            None => digit_value(c, radix as nat) is None,
        },
{
    let u = c as u32;
    let v: u32 = if '0' <= c && c <= '9' {
        u - 48
    } else if 'a' <= c && c <= 'z' {
        u - 97 + 10
    } else if 'A' <= c && c <= 'Z' {
        u - 65 + 10
    } else {
        99
    };
    if v < radix {
        Some(v)
    } else {
        None
    }
}

/// `from_str_radix` of an unsigned integer type whose largest value is `max`.
pub fn parse_unsigned_exec(s: &[char], radix: u32, max: u64) -> (r: Option<u64>)
    requires
        2 <= radix <= 36,
    ensures
        match r {
            Some(n) => parse_unsigned(s@, radix as nat, max as nat) == Some(n as nat),
            None => parse_unsigned(s@, radix as nat, max as nat) is None,
        },
{
    if s.len() == 0 || (s.len() == 1 && (s[0] == '+' || s[0] == '-')) {
        return None;
    }
    let start: usize = if s[0] == '+' {
        1
    } else {
        0
    };
    let ghost ds = if s@[0] == '+' {
        s@.drop_first()
    } else {
        s@
    };
    assert(ds =~= s@.skip(start as int));
    let cap: u128 = max as u128 + 1;
    let mut acc: u128 = 0;
    let mut i: usize = start;
    while i < s.len()
        invariant
            start <= i <= s.len(),
            ds == s@.skip(start as int),
            ds == (if s@[0] == '+' { s@.drop_first() } else { s@ }),
            !(s@.len() == 0 || (s@.len() == 1 && (s@[0] == '+' || s@[0] == '-'))),
            2 <= radix <= 36,
            cap == max + 1,
            all_digits(ds.take(i - start), radix as nat),
            acc == if digits_value(ds.take(i - start), radix as nat) > max {
                cap as nat
            } else {
                digits_value(ds.take(i - start), radix as nat)
            },
        decreases s.len() - i,
    {
        let d = match digit_value_exec(s[i], radix) {
            Some(d) => d,
            None => {
                assert(ds[i - start] == s@[i as int]);
                assert(!all_digits(ds, radix as nat));
                return None;
            },
        };
        let ghost pre = ds.take(i - start);
        let ghost nxt = ds.take(i - start + 1);
        proof {
            assert(nxt.drop_last() =~= pre);
            assert(nxt.last() == s@[i as int]);
            assert(all_digits(nxt, radix as nat)) by {
                assert forall|j: int| 0 <= j < nxt.len() implies (#[trigger] digit_value(
                    nxt[j],
                    radix as nat,
                )) is Some by {
                    if j < pre.len() {
                        assert(nxt[j] == pre[j]);
                    }
                }
            }
            let pv = digits_value(pre, radix as nat);
            assert(pv * radix >= pv) by (nonlinear_arith)
                requires
                    radix >= 2,
            ;
        }
        if acc >= cap {
            acc = cap;
        } else {
            assert(acc * (radix as u128) + (d as u128) <= 0x1_0000_0000_0000_0000 * 36 + 36) by (nonlinear_arith)
                requires
                    acc <= 0x1_0000_0000_0000_0000,
                    radix <= 36,
                    d < 36,
            ;
            let next = acc * (radix as u128) + (d as u128);
            acc = if next > max as u128 {
                cap
            } else {
                next
            };
        }
        i = i + 1;
    }
    assert(ds.take(s.len() - start) =~= ds);
    if acc > max as u128 {
        None
    } else {
        Some(acc as u64)
    }
}


// ─── Scanning, splitting once, words ─────────────────────────────────────────

/// The first position at or after `i` that holds `a` or `b`, or `s.len()`.
pub open spec fn scan2(s: Seq<char>, i: int, a: char, b: char) -> int
    decreases s.len() - i,
{
    if i < 0 || i >= s.len() {
        s.len() as int
    } else if s[i] == a || s[i] == b {
        i
    } else {
        scan2(s, i + 1, a, b)
    }
}

/// The first position at or after `i` that holds no whitespace, or `s.len()`.
pub open spec fn skip_ws(s: Seq<char>, i: int) -> int
    decreases s.len() - i,
{
    if i < 0 || i >= s.len() {
        s.len() as int
    } else if !is_ws(s[i]) {
        i
    } else {
        skip_ws(s, i + 1)
    }
}

pub proof fn lemma_scan2(s: Seq<char>, i: int, a: char, b: char)
    requires
        0 <= i <= s.len(),
    ensures
        i <= scan2(s, i, a, b) <= s.len(),
        scan2(s, i, a, b) < s.len() ==> (s[scan2(s, i, a, b)] == a || s[scan2(s, i, a, b)] == b),
        forall|j: int| i <= j < scan2(s, i, a, b) ==> s[j] != a && s[j] != b,
    decreases s.len() - i,
{
    if i < s.len() && !(s[i] == a || s[i] == b) {
        lemma_scan2(s, i + 1, a, b);
    }
}

pub proof fn lemma_skip_ws(s: Seq<char>, i: int)
    requires
        0 <= i <= s.len(),
    ensures
        i <= skip_ws(s, i) <= s.len(),
        skip_ws(s, i) < s.len() ==> !is_ws(s[skip_ws(s, i)]),
        forall|j: int| i <= j < skip_ws(s, i) ==> is_ws(s[j]),
    decreases s.len() - i,
{
    if i < s.len() && is_ws(s[i]) {
        lemma_skip_ws(s, i + 1);
    }
}

/// `scan2` computed.
pub fn scan2_exec(v: &[char], i: usize, a: char, b: char) -> (r: usize)
    requires
        i <= v.len(),
    ensures
        r == scan2(v@, i as int, a, b),
        i <= r <= v.len(),
{
    proof {
        lemma_scan2(v@, i as int, a, b);
    }
    let mut j = i;
    while j < v.len() && v[j] != a && v[j] != b
        invariant
            i <= j <= v.len(),
            scan2(v@, i as int, a, b) == scan2(v@, j as int, a, b),
        decreases v.len() - j,
    {
        j = j + 1;
    }
    j
}

/// `skip_ws` computed.
pub fn skip_ws_exec(v: &[char], i: usize) -> (r: usize)
    requires
        i <= v.len(),
    ensures
        r == skip_ws(v@, i as int),
        i <= r <= v.len(),
{
    proof {
        lemma_skip_ws(v@, i as int);
    }
    let mut j = i;
    while j < v.len() && is_whitespace(v[j])
        invariant
            i <= j <= v.len(),
            skip_ws(v@, i as int) == skip_ws(v@, j as int),
        decreases v.len() - j,
    {
        j = j + 1;
    }
    j
}

/// `i` is where `p` first occurs in `s`.
pub open spec fn first_occurrence(s: Seq<char>, p: Seq<char>, i: int) -> bool {
    occurs_at(s, p, i) && forall|j: int| 0 <= j < i ==> !occurs_at(s, p, j)
}

/// The parts of `s` before and after the first occurrence of `p`, if `p`
/// occurs (`str::split_once`, and `str::splitn(2, p)` when it splits).
pub open spec fn split_once(s: Seq<char>, p: Seq<char>) -> Option<(Seq<char>, Seq<char>)> {
    if exists|i: int| first_occurrence(s, p, i) {
        let i = choose|i: int| first_occurrence(s, p, i);
        Some((s.take(i), s.skip(i + p.len())))
    } else {
        None
    }
}

pub proof fn lemma_first_occurrence_unique(s: Seq<char>, p: Seq<char>, i: int, j: int)
    requires
        first_occurrence(s, p, i),
        first_occurrence(s, p, j),
    ensures
        i == j,
{
    if i < j {
        assert(!occurs_at(s, p, i));
    } else if j < i {
        assert(!occurs_at(s, p, j));
    }
}

/// `str::split_once`.
pub fn split_once_exec(v: &[char], p: &[char]) -> (r: Option<(Vec<char>, Vec<char>)>)
    ensures
        match r {
            Some((a, b)) => split_once(v@, p@) == Some((a@, b@)),
            None => split_once(v@, p@) is None,
        },
{
    match find_from(v, p, 0) {
        Some(i) => {
            assert(first_occurrence(v@, p@, i as int));
            proof {
                let c = choose|c: int| first_occurrence(v@, p@, c);
                lemma_first_occurrence_unique(v@, p@, i as int, c);
            }
            let a = slice_chars(v, 0, i);
            let b = slice_chars(v, i + p.len(), v.len());
            assert(a@ =~= v@.take(i as int));
            assert(b@ =~= v@.skip(i + p@.len()));
            Some((a, b))
        },
        None => {
            assert forall|i: int| !first_occurrence(v@, p@, i) by {
                if i >= 0 {
                    assert(!occurs_at(v@, p@, i));
                }
            }
            None
        },
    }
}

/// The whitespace-separated words of `s`, given that the word `cur` has been
/// read just before it.
pub open spec fn words_with(cur: Seq<char>, s: Seq<char>) -> Seq<Seq<char>>
    decreases s.len(),
{
    if s.len() == 0 {
        if cur.len() == 0 {
            Seq::empty()
        } else {
            seq![cur]
        }
    } else if is_ws(s[0]) {
        if cur.len() == 0 {
            words_with(Seq::empty(), s.drop_first())
        } else {
            seq![cur] + words_with(Seq::empty(), s.drop_first())
        }
    } else {
        words_with(cur.push(s[0]), s.drop_first())
    }
}

/// The non-empty runs of non-whitespace in `s` (`str::split_whitespace`).
pub open spec fn words(s: Seq<char>) -> Seq<Seq<char>> {
    words_with(Seq::empty(), s)
}

/// `str::split_whitespace`.
pub fn words_exec(v: &[char]) -> (r: Vec<Vec<char>>)
    ensures
        r@.map_values(|w: Vec<char>| w@) == words(v@),
{
    let mut done: Vec<Vec<char>> = Vec::new();
    let mut cur: Vec<char> = Vec::new();
    let mut i: usize = 0;
    assert(v@.skip(0) =~= v@);
    assert(done@.map_values(|w: Vec<char>| w@) =~= Seq::<Seq<char>>::empty());
    while i < v.len()
        invariant
            0 <= i <= v.len(),
            done@.map_values(|w: Vec<char>| w@) + words_with(cur@, v@.skip(i as int)) == words(
                v@,
            ),
        decreases v.len() - i,
    {
        let ghost rest = v@.skip(i as int);
        let ghost d0 = done@.map_values(|w: Vec<char>| w@);
        assert(rest.drop_first() =~= v@.skip(i + 1));
        if is_whitespace(v[i]) {
            if cur.len() > 0 {
                let w = slice_chars(&cur, 0, cur.len());
                assert(w@ =~= cur@);
                done.push(w);
                assert(done@.map_values(|w: Vec<char>| w@) =~= d0.push(cur@));
                assert(d0.push(cur@) + words_with(Seq::empty(), v@.skip(i + 1)) =~= d0 + (seq![
                    cur@,
                ] + words_with(Seq::empty(), v@.skip(i + 1))));
                cur = Vec::new();
            } else {
                assert(cur@ =~= Seq::<char>::empty());
            }
        } else {
            cur.push(v[i]);
        }
        i = i + 1;
    }
    assert(v@.skip(i as int) =~= Seq::<char>::empty());
    if cur.len() > 0 {
        let ghost d0 = done@.map_values(|w: Vec<char>| w@);
        done.push(cur);
        assert(done@.map_values(|w: Vec<char>| w@) =~= d0 + seq![done@[done@.len() - 1]@]);
    } else {
        assert(done@.map_values(|w: Vec<char>| w@) + Seq::<Seq<char>>::empty() =~= done@.map_values(|w: Vec<char>| w@));
    }
    done
}

} // verus!

verus! {

/// A decimal digit character has the value it denotes.
pub proof fn lemma_digit_char_value(d: nat)
    requires
        d < 10,
    ensures
        digit_value(digit_char(d), 10) == Some(d),
        '0' <= digit_char(d) <= '9',
{
    assert(((d + 48) as u32) as char as u32 == d + 48);
}

/// Reading back the decimal notation of `n` gives `n`.
pub proof fn lemma_decimal_value(n: nat)
    ensures
        all_digits(decimal(n), 10),
        digits_value(decimal(n), 10) == n,
    decreases n,
{
    if n < 10 {
        lemma_digit_char_value(n);
        assert(decimal(n).drop_last() =~= Seq::<char>::empty());
        assert(decimal(n).last() == digit_char(n));
        assert(digits_value(Seq::<char>::empty(), 10) == 0);
    } else {
        lemma_decimal_value(n / 10);
        lemma_digit_char_value(n % 10);
        let d = decimal(n);
        assert(d.drop_last() =~= decimal(n / 10));
        assert(d.last() == digit_char(n % 10));
        assert(digits_value(d, 10) == digits_value(decimal(n / 10), 10) * 10 + (n % 10));
        assert((n / 10) * 10 + n % 10 == n) by (nonlinear_arith);
        assert forall|i: int| 0 <= i < d.len() implies (#[trigger] digit_value(d[i], 10)) is Some by {
            if i < d.len() - 1 {
                assert(d[i] == decimal(n / 10)[i]);
            }
        }
    }
}

/// `parse_unsigned` reads the decimal notation of any value that fits.
pub proof fn law_parse_decimal_round_trip(n: nat, max: nat)
    requires
        n <= max,
    ensures
        parse_unsigned(decimal(n), 10, max) == Some(n),
{
    lemma_decimal_value(n);
    lemma_decimal_digits(n);
    let d = decimal(n);
    assert('0' <= d[0] <= '9');
    if d.len() == 1 {
        assert(d[0] != '+' && d[0] != '-');
    }
}

} // verus!
