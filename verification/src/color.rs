//! Colors and CSS-style color parsing.
//!
//! A [`Color`] holds 8-bit channels and a fixed-point alpha in milli units
//! (1000 is fully opaque).  [`parse_color`] understands the two forms the
//! engine's style strings use: `#rrggbb` hex and `rgb(...)` / `rgba(...)`
//! with decimal components; anything else falls back to a neutral gray,
//! and each unreadable component falls back to its own default, never to
//! an error.

use vstd::prelude::*;
use crate::fixed::spec_clamp;

verus! {

/// An RGBA color: 8-bit channels, alpha in milli units (0 to 1000).
#[derive(Clone, Copy, Debug, PartialEq, Eq, Structural)]
pub struct Color {
    pub r: u8,
    pub g: u8,
    pub b: u8,
    pub a: i64,
}

/// [`Color::with_alpha`] as a value: alpha replaced, clamped.
pub open spec fn spec_with_alpha(c: Color, a: int) -> Color {
    Color { a: spec_clamp(a, 0, 1000) as i64, ..c }
}

/// [`Color::lighten`] as a value: channels moved toward white.
pub open spec fn spec_lighten(c: Color, amt: int) -> Color {
    Color {
        r: (c.r + (255 - c.r) * amt / 1000) as u8,
        g: (c.g + (255 - c.g) * amt / 1000) as u8,
        b: (c.b + (255 - c.b) * amt / 1000) as u8,
        a: c.a,
    }
}

/// [`Color::darken`] as a value: channels scaled toward black.
pub open spec fn spec_darken(c: Color, amt: int) -> Color {
    Color {
        r: (c.r * (1000 - amt) / 1000) as u8,
        g: (c.g * (1000 - amt) / 1000) as u8,
        b: (c.b * (1000 - amt) / 1000) as u8,
        a: c.a,
    }
}

/// [`Color::lerp`] as a value: every component blended `t` of the way.
pub open spec fn spec_color_lerp(c: Color, other: Color, t: int) -> Color {
    Color {
        r: (c.r + (other.r - c.r) * t / 1000) as u8,
        g: (c.g + (other.g - c.g) * t / 1000) as u8,
        b: (c.b + (other.b - c.b) * t / 1000) as u8,
        a: (c.a + (other.a - c.a) * t / 1000) as i64,
    }
}

impl Color {
    /// Fully opaque color from three channels.
    pub fn rgb(r: u8, g: u8, b: u8) -> (c: Color)
        ensures
            c == (Color { r, g, b, a: 1000int as i64 }),
    {
        Color { r, g, b, a: 1000 }
    }

    /// Color from three channels and a milli alpha, clamped to [0, 1000].
    pub fn rgba(r: u8, g: u8, b: u8, a: i64) -> (c: Color)
        ensures
            c.r == r && c.g == g && c.b == b,
            c.a == spec_clamp(a as int, 0, 1000),
    {
        Color { r, g, b, a: crate::fixed::clamp64(a, 0, 1000) }
    }

    /// The same color with its alpha replaced (clamped to [0, 1000]).
    pub fn with_alpha(self, a: i64) -> (c: Color)
        ensures
            c == spec_with_alpha(self, a as int),
            c.r == self.r && c.g == self.g && c.b == self.b,
            c.a == spec_clamp(a as int, 0, 1000),
    {
        Color { a: crate::fixed::clamp64(a, 0, 1000), ..self }
    }

    /// Move every channel toward white by `amt` milli (0 to 1000).
    pub fn lighten(self, amt: i64) -> (c: Color)
        requires
            0 <= amt <= 1000,
        ensures
            c == spec_lighten(self, amt as int),
            c.a == self.a,
    {
        Color {
            r: lerp_channel(self.r, 255, amt),
            g: lerp_channel(self.g, 255, amt),
            b: lerp_channel(self.b, 255, amt),
            a: self.a,
        }
    }

    /// Scale every channel toward black by `amt` milli (0 to 1000).
    pub fn darken(self, amt: i64) -> (c: Color)
        requires
            0 <= amt <= 1000,
        ensures
            c == spec_darken(self, amt as int),
            c.a == self.a,
    {
        let k: u64 = (1000 - amt) as u64;
        proof {
            assert(forall|ch: int|
                0 <= ch <= 255 ==> 0 <= #[trigger] (ch * k) <= 255_000 && 0 <= ch * k / 1000
                    <= 255) by (nonlinear_arith)
                requires
                    0 <= k <= 1000,
            ;
        }
        Color {
            r: (self.r as u64 * k / 1000) as u8,
            g: (self.g as u64 * k / 1000) as u8,
            b: (self.b as u64 * k / 1000) as u8,
            a: self.a,
        }
    }

    /// Blend each channel `t` milli of the way toward `other`.
    pub fn lerp(self, other: Color, t: i64) -> (c: Color)
        requires
            0 <= t <= 1000,
            0 <= self.a <= 1000,
            0 <= other.a <= 1000,
        ensures
            c == spec_color_lerp(self, other, t as int),
            0 <= c.a <= 1000,
    {
        Color {
            r: lerp_channel(self.r, other.r, t),
            g: lerp_channel(self.g, other.g, t),
            b: lerp_channel(self.b, other.b, t),
            a: crate::fixed::lerp_milli(self.a, other.a, t),
        }
    }
}

/// One channel of a blend: `a + (b - a) * t / 1000`.
fn lerp_channel(a: u8, b: u8, t: i64) -> (r: u8)
    requires
        0 <= t <= 1000,
    ensures
        r == a + (b - a) * t / 1000,
{
    crate::fixed::lerp_milli(a as i64, b as i64, t) as u8
}

// ---------------------------------------------------------------------------
// Character-level helpers
// ---------------------------------------------------------------------------

/// Value of a hexadecimal digit, or -1.
pub open spec fn hex_val(c: char) -> int {
    if 48 <= c as int <= 57 {
        c as int - 48
    } else if 97 <= c as int <= 102 {
        c as int - 87
    } else if 65 <= c as int <= 70 {
        c as int - 55
    } else {
        -1
    }
}

/// Two hex digits as a byte; 128 when either digit is invalid.
pub open spec fn hex_pair_or_default(h: char, l: char) -> int {
    if hex_val(h) >= 0 && hex_val(l) >= 0 {
        16 * hex_val(h) + hex_val(l)
    } else {
        128
    }
}

/// Evaluate [`hex_val`] on a character.
fn hex_digit(c: char) -> (v: i64)
    ensures
        v == hex_val(c),
        -1 <= v <= 15,
{
    let u = c as u32;
    if 48 <= u && u <= 57 {
        (u - 48) as i64
    } else if 97 <= u && u <= 102 {
        (u - 87) as i64
    } else if 65 <= u && u <= 70 {
        (u - 55) as i64
    } else {
        -1
    }
}

/// Whether `c` is a decimal digit.
pub open spec fn is_digit(c: char) -> bool {
    48 <= c as int <= 57
}

/// Whether every character of `s` is a decimal digit.
pub open spec fn all_digits(s: Seq<char>) -> bool {
    forall|i: int| 0 <= i < s.len() ==> is_digit(#[trigger] s[i])
}

/// The decimal value of a digit string.
pub open spec fn dec_val(s: Seq<char>) -> int
    decreases s.len(),
{
    if s.len() == 0 {
        0
    } else {
        dec_val(s.drop_last()) * 10 + (s.last() as int - 48)
    }
}

/// How many copies of `c` begin `s`.
pub open spec fn leading_count(s: Seq<char>, c: char) -> int
    decreases s.len(),
{
    if s.len() > 0 && s[0] == c {
        1 + leading_count(s.drop_first(), c)
    } else {
        0
    }
}

/// How many copies of `c` end `s`.
pub open spec fn trailing_count(s: Seq<char>, c: char) -> int
    decreases s.len(),
{
    if s.len() > 0 && s.last() == c {
        1 + trailing_count(s.drop_last(), c)
    } else {
        0
    }
}

/// Index of the first `c` in `s`, or -1.
pub open spec fn first_index(s: Seq<char>, c: char) -> int
    decreases s.len(),
{
    if s.len() == 0 {
        -1
    } else if s[0] == c {
        0
    } else if first_index(s.drop_first(), c) < 0 {
        -1
    } else {
        1 + first_index(s.drop_first(), c)
    }
}

/// A scan that saw no `c` in the first `i` places and then either the
/// end or a `c` pins [`first_index`].
proof fn lemma_first_index_at(s: Seq<char>, c: char, i: int)
    requires
        0 <= i <= s.len(),
        forall|j: int| 0 <= j < i ==> s[j] != c,
        i < s.len() ==> s[i] == c,
    ensures
        first_index(s, c) == if i == s.len() { -1int } else { i },
    decreases i,
{
    if i == 0 {
        if s.len() > 0 {
        }
    } else {
        assert(s[0] != c);
        lemma_first_index_at(s.drop_first(), c, i - 1);
    }
}

/// A scan that saw `c` at the first `i` places and then either the end or
/// a non-`c` pins [`leading_count`].
proof fn lemma_leading_count_at(s: Seq<char>, c: char, i: int)
    requires
        0 <= i <= s.len(),
        forall|j: int| 0 <= j < i ==> s[j] == c,
        i < s.len() ==> s[i] != c,
    ensures
        leading_count(s, c) == i,
    decreases i,
{
    if i > 0 {
        lemma_leading_count_at(s.drop_first(), c, i - 1);
    }
}

/// A scan that saw `c` at the last `t` places and then either the start
/// or a non-`c` pins [`trailing_count`].
proof fn lemma_trailing_count_at(s: Seq<char>, c: char, t: int)
    requires
        0 <= t <= s.len(),
        forall|j: int| s.len() - t <= j < s.len() ==> s[j] == c,
        t < s.len() ==> s[s.len() - t - 1] != c,
    ensures
        trailing_count(s, c) == t,
    decreases t,
{
    if t > 0 {
        lemma_trailing_count_at(s.drop_last(), c, t - 1);
    }
}

// ---------------------------------------------------------------------------
// Trimming and splitting
// ---------------------------------------------------------------------------

/// `s` without leading and trailing spaces.
pub open spec fn spec_trim(s: Seq<char>) -> Seq<char> {
    if leading_count(s, ' ') == s.len() {
        Seq::empty()
    } else {
        s.subrange(leading_count(s, ' '), s.len() - trailing_count(s, ' '))
    }
}

/// Strip spaces from both ends.
fn trim_str<'a>(s: &'a str) -> (t: &'a str)
    ensures
        t@ == spec_trim(s@),
{
    let n = s.unicode_len();
    let mut i: usize = 0;
    while i < n && s.get_char(i) == ' '
        invariant
            i <= n == s@.len(),
            forall|j: int| 0 <= j < i ==> s@[j] == ' ',
        decreases n - i,
    {
        i = i + 1;
    }
    proof {
        lemma_leading_count_at(s@, ' ', i as int);
    }
    if i == n {
        let t = s.substring_char(0, 0);
        proof {
            assert(t@ =~= Seq::<char>::empty());
        }
        t
    } else {
        let mut t: usize = 0;
        while s.get_char(n - 1 - t) == ' '
            invariant
                i < n == s@.len(),
                t <= n - 1 - i,
                s@[i as int] != ' ',
                forall|j: int| n - t <= j < n ==> s@[j] == ' ',
            decreases n - i - t,
        {
            t = t + 1;
        }
        proof {
            lemma_trailing_count_at(s@, ' ', t as int);
        }
        s.substring_char(i, n - t)
    }
}

/// The `k`-th comma-separated piece of `s`, if there are that many.
pub open spec fn spec_piece(s: Seq<char>, k: int) -> Option<Seq<char>>
    decreases k,
{
    let ci = first_index(s, ',');
    if k <= 0 {
        if ci < 0 {
            Some(s)
        } else {
            Some(s.subrange(0, ci))
        }
    } else if ci < 0 {
        None
    } else {
        spec_piece(s.subrange(ci + 1, s.len() as int), k - 1)
    }
}

/// Walk to the `k`-th comma-separated piece.
fn nth_piece<'a>(s: &'a str, k: usize) -> (r: Option<&'a str>)
    ensures
        r is Some <==> spec_piece(s@, k as int) is Some,
        r is Some ==> r->Some_0@ == spec_piece(s@, k as int)->Some_0,
    decreases k,
{
    let n = s.unicode_len();
    let mut i: usize = 0;
    while i < n && s.get_char(i) != ','
        invariant
            i <= n == s@.len(),
            forall|j: int| 0 <= j < i ==> s@[j] != ',',
        decreases n - i,
    {
        i = i + 1;
    }
    proof {
        lemma_first_index_at(s@, ',', i as int);
    }
    if k == 0 {
        if i == n {
            Some(s)
        } else {
            Some(s.substring_char(0, i))
        }
    } else if i == n {
        None
    } else {
        nth_piece(s.substring_char(i + 1, n), k - 1)
    }
}

// ---------------------------------------------------------------------------
// Numeric fields
// ---------------------------------------------------------------------------

/// `t` without one leading plus sign.
pub open spec fn strip_plus(t: Seq<char>) -> Seq<char> {
    if t.len() > 0 && t[0] == '+' {
        t.drop_first()
    } else {
        t
    }
}

/// A byte-sized decimal field: trimmed, optional plus sign, all digits,
/// at most 255; anything else reads as 128.
pub open spec fn spec_parse_u8(p: Seq<char>) -> int {
    let u = strip_plus(spec_trim(p));
    if u.len() > 0 && all_digits(u) && dec_val(u) <= 255 {
        dec_val(u)
    } else {
        128
    }
}

/// An alpha field in milli units: trimmed, optional plus sign, decimal
/// digits with an optional fraction (read to three places), clamped to
/// [0, 1000]; anything else reads as 1000.
pub open spec fn spec_parse_alpha(p: Seq<char>) -> int {
    let u = strip_plus(spec_trim(p));
    let dot = first_index(u, '.');
    if dot < 0 {
        if u.len() > 0 && all_digits(u) {
            spec_clamp(dec_val(u) * 1000, 0, 1000)
        } else {
            1000
        }
    } else {
        let ip = u.subrange(0, dot);
        let fp = u.subrange(dot + 1, u.len() as int);
        if ip.len() + fp.len() > 0 && all_digits(ip) && all_digits(fp) {
            spec_clamp(dec_val(ip) * 1000 + frac3(fp), 0, 1000)
        } else {
            1000
        }
    }
}

/// The first three fraction digits as milli units.
pub open spec fn frac3(f: Seq<char>) -> int {
    100 * frac_digit(f, 0) + 10 * frac_digit(f, 1) + frac_digit(f, 2)
}

/// The `i`-th fraction digit, or 0 past the end.
pub open spec fn frac_digit(f: Seq<char>, i: int) -> int {
    if i < f.len() {
        f[i] as int - 48
    } else {
        0
    }
}

/// Strip one leading plus sign.
fn strip_plus_str<'a>(t: &'a str) -> (u: &'a str)
    ensures
        u@ == strip_plus(t@),
{
    let n = t.unicode_len();
    if n > 0 && t.get_char(0) == '+' {
        let u = t.substring_char(1, n);
        proof {
            assert(u@ =~= t@.drop_first());
        }
        u
    } else {
        t
    }
}

/// Scan `u` as plain digits, watching for values beyond `limit`.
///
/// Returns the digit-string's value when `u` is nonempty, all digits and
/// within `limit`; otherwise `None`.
fn scan_digits(u: &str, limit: u64) -> (r: Option<u64>)
    requires
        limit <= 0xffff_ffff,
    ensures
        r is Some <==> (u@.len() > 0 && all_digits(u@) && dec_val(u@) <= limit),
        r is Some ==> r->Some_0 == dec_val(u@),
{
    let n = u.unicode_len();
    if n == 0 {
        return None;
    }
    let mut acc: u64 = 0;
    let mut over: bool = false;
    let mut i: usize = 0;
    while i < n
        invariant
            i <= n == u@.len(),
            limit <= 0xffff_ffff,
            forall|j: int| 0 <= j < i ==> is_digit(#[trigger] u@[j]),
            over <==> dec_val(u@.subrange(0, i as int)) > limit,
            !over ==> acc == dec_val(u@.subrange(0, i as int)) && acc <= limit,
        decreases n - i,
    {
        let c = u.get_char(i);
        let cu = c as u32;
        if cu < 48 || cu > 57 {
            assert(!all_digits(u@));
            return None;
        }
        proof {
            assert(u@.subrange(0, i + 1 as int).drop_last() =~= u@.subrange(0, i as int));
            assert(u@.subrange(0, i + 1 as int).last() == u@[i as int]);
        }
        let d: u64 = (cu - 48) as u64;
        if over {
            assert(dec_val(u@.subrange(0, i + 1 as int)) > limit);
        } else if acc * 10 + d > limit {
            over = true;
        } else {
            acc = acc * 10 + d;
        }
        i = i + 1;
    }
    proof {
        assert(u@.subrange(0, n as int) =~= u@);
    }
    if over {
        None
    } else {
        Some(acc)
    }
}

/// Read one comma-separated piece as a byte per [`spec_parse_u8`].
fn parse_u8_field(s: &str, k: usize) -> (v: u8)
    ensures
        v == match spec_piece(s@, k as int) {
            Some(p) => spec_parse_u8(p),
            None => 128int,
        },
{
    match nth_piece(s, k) {
        None => 128,
        Some(p) => {
            let u = strip_plus_str(trim_str(p));
            match scan_digits(u, 255) {
                Some(v) => v as u8,
                None => 128,
            }
        },
    }
}

/// Read one comma-separated piece as a milli alpha per
/// [`spec_parse_alpha`]; a missing piece reads as opaque.
fn parse_alpha_field(s: &str, k: usize) -> (v: i64)
    ensures
        v == match spec_piece(s@, k as int) {
            Some(p) => spec_parse_alpha(p),
            None => 1000int,
        },
        0 <= v <= 1000,
{
    let p = match nth_piece(s, k) {
        None => { return 1000; },
        Some(p) => p,
    };
    let u = strip_plus_str(trim_str(p));
    let n = u.unicode_len();
    let mut i: usize = 0;
    while i < n && u.get_char(i) != '.'
        invariant
            i <= n == u@.len(),
            forall|j: int| 0 <= j < i ==> u@[j] != '.',
        decreases n - i,
    {
        i = i + 1;
    }
    proof {
        lemma_first_index_at(u@, '.', i as int);
    }
    if i == n {
        // No fraction: a whole number of units, so anything beyond zero
        // clamps to fully opaque, and an unreadable field defaults to
        // fully opaque as well.
        match scan_digits(u, 0xffff_ffff) {
            Some(v) => {
                if v >= 1 {
                    1000
                } else {
                    proof {
                        assert(spec_clamp(dec_val(u@) * 1000, 0, 1000) == 0) by {
                            assert(dec_val(u@) == 0);
                        }
                    }
                    0
                }
            },
            None => 1000,
        }
    } else {
        let ip = u.substring_char(0, i);
        let fp = u.substring_char(i + 1, n);
        proof {
            assert(ip@ =~= u@.subrange(0, i as int));
            assert(fp@ =~= u@.subrange(i + 1, n as int));
        }
        parse_alpha_split(ip, fp)
    }
}

/// Whether every character is a digit (runtime check).
fn all_digits_exec(u: &str) -> (r: bool)
    ensures
        r == all_digits(u@),
{
    let n = u.unicode_len();
    let mut i: usize = 0;
    while i < n
        invariant
            i <= n == u@.len(),
            forall|j: int| 0 <= j < i ==> is_digit(#[trigger] u@[j]),
        decreases n - i,
    {
        let cu = u.get_char(i) as u32;
        if cu < 48 || cu > 57 {
            return false;
        }
        i = i + 1;
    }
    true
}

/// Combine integer and fraction parts of an alpha field.
fn parse_alpha_split(ip: &str, fp: &str) -> (v: i64)
    ensures
        v == if ip@.len() + fp@.len() > 0 && all_digits(ip@) && all_digits(fp@) {
            spec_clamp(dec_val(ip@) * 1000 + frac3(fp@), 0, 1000)
        } else {
            1000int
        },
        0 <= v <= 1000,
{
    let ilen = ip.unicode_len();
    let flen = fp.unicode_len();
    if ilen == 0 && flen == 0 {
        return 1000;
    }
    if !all_digits_exec(ip) || !all_digits_exec(fp) {
        return 1000;
    }
    let whole_big: bool = match scan_digits(ip, 1000) {
        Some(_) => false,
        None => ilen > 0,
    };
    let whole: u64 = if whole_big {
        1001
    } else {
        match scan_digits(ip, 1000) {
            Some(v) => v,
            None => 0,
        }
    };
    let frac: u64 = 100 * frac_digit_exec(fp, 0) + 10 * frac_digit_exec(fp, 1) + frac_digit_exec(
        fp,
        2,
    );
    if whole >= 1001 {
        assert(dec_val(ip@) * 1000 + frac3(fp@) > 1000);
        1000
    } else {
        let total: u64 = whole * 1000 + frac;
        if total > 1000 {
            1000
        } else {
            total as i64
        }
    }
}

/// Read the `i`-th fraction digit of an all-digit string.
fn frac_digit_exec(f: &str, i: usize) -> (d: u64)
    requires
        all_digits(f@),
    ensures
        d == frac_digit(f@, i as int),
        d <= 9,
{
    if i < f.unicode_len() {
        let cu = f.get_char(i) as u32;
        assert(is_digit(f@[i as int]));
        (cu - 48) as u64
    } else {
        0
    }
}

// ---------------------------------------------------------------------------
// The parser
// ---------------------------------------------------------------------------

/// The body of an `rgb...` style string: prefix and trailing parentheses
/// removed.
pub open spec fn spec_rgb_body(s: Seq<char>) -> Seq<char> {
    let after = if s.len() >= 5 && s[3] == 'a' && s[4] == '(' {
        s.subrange(5, s.len() as int)
    } else if s.len() >= 4 && s[3] == '(' {
        s.subrange(4, s.len() as int)
    } else {
        s
    };
    after.subrange(0, after.len() - trailing_count(after, ')'))
}

/// What [`parse_color`] yields on any input.
pub open spec fn spec_parse_color(s: Seq<char>) -> Color {
    if s.len() == 7 && s[0] == '#' {
        (Color {
            r: hex_pair_or_default(s[1], s[2]) as u8,
            g: hex_pair_or_default(s[3], s[4]) as u8,
            b: hex_pair_or_default(s[5], s[6]) as u8,
            a: 1000int as i64,
        })
    } else if s.len() >= 3 && s[0] == 'r' && s[1] == 'g' && s[2] == 'b' {
        (Color {
            r: spec_u8_field(spec_rgb_body(s), 0) as u8,
            g: spec_u8_field(spec_rgb_body(s), 1) as u8,
            b: spec_u8_field(spec_rgb_body(s), 2) as u8,
            a: spec_alpha_field(spec_rgb_body(s), 3) as i64,
        })
    } else {
        (Color { r: 128, g: 128, b: 128, a: 1000int as i64 })
    }
}

/// One color component of an `rgb` body.
pub open spec fn spec_u8_field(body: Seq<char>, k: int) -> int {
    match spec_piece(body, k) {
        Some(p) => spec_parse_u8(p),
        None => 128,
    }
}

/// The alpha component of an `rgb` body.
pub open spec fn spec_alpha_field(body: Seq<char>, k: int) -> int {
    match spec_piece(body, k) {
        Some(p) => spec_parse_alpha(p),
        None => 1000,
    }
}

/// Parse a CSS-style color string: `#rrggbb`, `rgb(r, g, b)` or
/// `rgba(r, g, b, a)`; each unreadable component falls back to its
/// default and any other form to a neutral gray.
pub fn parse_color(color_str: &str) -> (c: Color)
    ensures
        c == spec_parse_color(color_str@),
        0 <= c.a <= 1000,
{
    let n = color_str.unicode_len();
    if n == 7 && color_str.get_char(0) == '#' {
        let r = hex_pair(color_str.get_char(1), color_str.get_char(2));
        let g = hex_pair(color_str.get_char(3), color_str.get_char(4));
        let b = hex_pair(color_str.get_char(5), color_str.get_char(6));
        Color { r, g, b, a: 1000 }
    } else if n >= 3 && color_str.get_char(0) == 'r' && color_str.get_char(1) == 'g'
        && color_str.get_char(2) == 'b' {
        let after: &str = if n >= 5 && color_str.get_char(3) == 'a' && color_str.get_char(4)
            == '(' {
            color_str.substring_char(5, n)
        } else if n >= 4 && color_str.get_char(3) == '(' {
            color_str.substring_char(4, n)
        } else {
            color_str
        };
        let alen = after.unicode_len();
        let mut t: usize = 0;
        while t < alen && after.get_char(alen - 1 - t) == ')'
            invariant
                t <= alen == after@.len(),
                forall|j: int| alen - t <= j < alen ==> after@[j] == ')',
            decreases alen - t,
        {
            t = t + 1;
        }
        proof {
            lemma_trailing_count_at(after@, ')', t as int);
        }
        let body = after.substring_char(0, alen - t);
        proof {
            assert(body@ =~= spec_rgb_body(color_str@));
        }
        let r = parse_u8_field(body, 0);
        let g = parse_u8_field(body, 1);
        let b = parse_u8_field(body, 2);
        let a = parse_alpha_field(body, 3);
        Color { r, g, b, a }
    } else {
        Color { r: 128, g: 128, b: 128, a: 1000 }
    }
}

/// Two hex digits as a byte, 128 on an invalid digit.
fn hex_pair(h: char, l: char) -> (v: u8)
    ensures
        v == hex_pair_or_default(h, l),
{
    let hv = hex_digit(h);
    let lv = hex_digit(l);
    if hv >= 0 && lv >= 0 {
        (16 * hv + lv) as u8
    } else {
        128
    }
}

/// The ten-entry categorical palette used when a node carries no explicit
/// color: entry `k` of the palette, by group index modulo ten.
pub open spec fn spec_palette(k: int) -> Seq<char> {
    if k == 1 {
        "#ff7f0e"@
    } else if k == 2 {
        "#2ca02c"@
    } else if k == 3 {
        "#d62728"@
    } else if k == 4 {
        "#9467bd"@
    } else if k == 5 {
        "#8c564b"@
    } else if k == 6 {
        "#e377c2"@
    } else if k == 7 {
        "#7f7f7f"@
    } else if k == 8 {
        "#bcbd22"@
    } else if k == 9 {
        "#17becf"@
    } else {
        "#1f77b4"@
    }
}

/// Pick the palette entry for a group index.
pub fn palette_color(group: u32) -> (s: &'static str)
    ensures
        s@ == spec_palette(group as int % 10),
{
    let k = group % 10;
    if k == 1 {
        "#ff7f0e"
    } else if k == 2 {
        "#2ca02c"
    } else if k == 3 {
        "#d62728"
    } else if k == 4 {
        "#9467bd"
    } else if k == 5 {
        "#8c564b"
    } else if k == 6 {
        "#e377c2"
    } else if k == 7 {
        "#7f7f7f"
    } else if k == 8 {
        "#bcbd22"
    } else if k == 9 {
        "#17becf"
    } else {
        "#1f77b4"
    }
}

} // verus!
