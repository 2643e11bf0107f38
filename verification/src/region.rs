//! Parsing of textual capture-region arguments.
//!
//! Two textual forms are understood: `{x},{y} {width}x{height}` (the form
//! produced by interactive region selectors) for [`Region`], and
//! `{w}x{h}+{x}+{y}` for [`Rect`]. A string is accepted exactly when it
//! matches the form in full and every number fits in 32 bits.

use vstd::prelude::*;

verus! {

/// A decimal digit.
pub open spec fn is_digit(c: char) -> bool {
    '0' <= c && c <= '9'
}

/// The numeric value of one digit.
pub open spec fn digit_value(c: char) -> int {
    c as int - '0' as int
}

/// The number written by a digit string, most significant digit first.
pub open spec fn digits_value(s: Seq<char>) -> int
    decreases s.len(),
{
    if s.len() == 0 {
        0
    } else {
        digits_value(s.drop_last()) * 10 + digit_value(s.last())
    }
}

/// The first position at or after `from` that does not hold a digit.
pub open spec fn digits_end(s: Seq<char>, from: int) -> int
    decreases s.len() - from,
{
    if from >= s.len() {
        from
    } else if !is_digit(s[from]) {
        from
    } else {
        digits_end(s, from + 1)
    }
}

/// A digit string names a non-negative number.
proof fn lemma_digits_value_nonneg(s: Seq<char>)
    requires
        forall|i: int| 0 <= i < s.len() ==> is_digit(#[trigger] s[i]),
    ensures
        digits_value(s) >= 0,
    decreases s.len(),
{
    if s.len() > 0 {
        lemma_digits_value_nonneg(s.drop_last());
        assert(digits_value(s.drop_last()) * 10 >= 0) by (nonlinear_arith)
            requires
                digits_value(s.drop_last()) >= 0,
        ;
    }
}

/// Extending a digit string never shrinks its value.
proof fn lemma_digits_value_monotonic(s: Seq<char>, from: int, mid: int, to: int)
    requires
        0 <= from <= mid <= to <= s.len(),
        forall|i: int| from <= i < to ==> is_digit(#[trigger] s[i]),
    ensures
        digits_value(s.subrange(from, to)) >= digits_value(s.subrange(from, mid)),
    decreases to - mid,
{
    if mid < to {
        lemma_digits_value_monotonic(s, from, mid, to - 1);
        let prev = s.subrange(from, to - 1);
        let cur = s.subrange(from, to);
        assert(cur.drop_last() =~= prev);
        assert(forall|i: int| 0 <= i < prev.len() ==> is_digit(#[trigger] prev[i]));
        lemma_digits_value_nonneg(prev);
        assert(digits_value(prev) * 10 >= digits_value(prev)) by (nonlinear_arith)
            requires
                digits_value(prev) >= 0,
        ;
    } else {
        assert(s.subrange(from, to) =~= s.subrange(from, mid));
    }
}

/// Every position of a scanned digit run holds a digit.
proof fn lemma_digits_end_digits(s: Seq<char>, from: int)
    requires
        0 <= from,
    ensures
        forall|i: int| from <= i < digits_end(s, from) ==> is_digit(#[trigger] s[i]),
        from <= digits_end(s, from) <= vstd::math::max(from, s.len() as int),
    decreases s.len() - from,
{
    if from < s.len() && is_digit(s[from]) {
        lemma_digits_end_digits(s, from + 1);
    }
}

/// Whether the character has the given code point; character equality
/// itself carries no specification, code points do.
fn char_is(c: char, code: u32) -> (r: bool)
    ensures
        r == (c as u32 == code),
{
    c as u32 == code
}

/// Finds the end of the digit run starting at `from`.
fn scan_digits(s: &str, len: usize, from: usize) -> (end: usize)
    requires
        len == s@.len(),
        from <= len,
    ensures
        end == digits_end(s@, from as int),
        from <= end <= len,
{
    let mut i = from;
    while i < len
        invariant
            len == s@.len(),
            from <= i <= len,
            digits_end(s@, from as int) == digits_end(s@, i as int),
        decreases len - i,
    {
        let c = s.get_char(i);
        let u = c as u32;
        if !(48 <= u && u <= 57) {
            return i;
        }
        i = i + 1;
    }
    i
}

/// Reads the number written between `from` and `to`, reporting `None`
/// when it exceeds 2^31 (the largest magnitude any field may need).
fn parse_digits(s: &str, len: usize, from: usize, to: usize) -> (r: Option<i64>)
    requires
        len == s@.len(),
        from <= to <= len,
        forall|i: int| from <= i < to ==> is_digit(#[trigger] s@[i]),
    ensures
        match r {
            Some(v) => v == digits_value(s@.subrange(from as int, to as int)) && 0 <= v
                <= 0x8000_0000,
            None => digits_value(s@.subrange(from as int, to as int)) > 0x8000_0000,
        },
{
    let mut acc: i64 = 0;
    let mut i = from;
    proof {
        assert(s@.subrange(from as int, from as int) =~= Seq::<char>::empty());
    }
    while i < to
        invariant
            len == s@.len(),
            from <= i <= to <= len,
            forall|j: int| from <= j < to ==> is_digit(#[trigger] s@[j]),
            0 <= acc <= 0x8000_0000,
            acc == digits_value(s@.subrange(from as int, i as int)),
        decreases to - i,
    {
        let c = s.get_char(i);
        let d = (c as u32) - 48;
        let next = acc * 10 + (d as i64);
        proof {
            let prev = s@.subrange(from as int, i as int);
            let cur = s@.subrange(from as int, i as int + 1);
            assert(cur.drop_last() =~= prev);
        }
        if next > 0x8000_0000 {
            proof {
                lemma_digits_value_monotonic(s@, from as int, i as int + 1, to as int);
            }
            return None;
        }
        acc = next;
        i = i + 1;
    }
    Some(acc)
}

/// A capture region in the `{x},{y} {width}x{height}` textual form: a
/// top-left corner in compositor space and a size expanding right and
/// down from it.
#[derive(Debug, Clone, Copy, PartialEq, Eq)]
pub struct Region {
    /// The position of the top left corner of the region.
    pub position: (i32, i32),
    /// The size of the region expanding from the position.
    pub size: (i32, i32),
}

/// What a region string means: `Some` exactly when the whole string is
/// `{x},{y} {w}x{h}` with optionally signed `x` and `y`, unsigned `w` and
/// `h`, and every value representable in 32 bits.
pub open spec fn spec_parse_region(s: Seq<char>) -> Option<(int, int, int, int)> {
    let xs: int = if s.len() > 0 && s[0] == '-' {
        1
    } else {
        0
    };
    let xe = digits_end(s, xs);
    let ys = xe + 1;
    let ysign: int = if ys < s.len() && s[ys] == '-' {
        ys + 1
    } else {
        ys
    };
    let ye = digits_end(s, ysign);
    let ws = ye + 1;
    let we = digits_end(s, ws);
    let hs = we + 1;
    let he = digits_end(s, hs);
    if xe > xs && xe < s.len() && s[xe] == ',' && ye > ysign && ye < s.len() && s[ye] == ' '
        && we > ws && we < s.len() && s[we] == 'x' && he > hs && he == s.len() {
        let x = if xs == 1 {
            -digits_value(s.subrange(xs, xe))
        } else {
            digits_value(s.subrange(xs, xe))
        };
        let y = if ysign > ys {
            -digits_value(s.subrange(ysign, ye))
        } else {
            digits_value(s.subrange(ysign, ye))
        };
        let w = digits_value(s.subrange(ws, we));
        let h = digits_value(s.subrange(hs, he));
        if i32::MIN <= x <= i32::MAX && i32::MIN <= y <= i32::MAX && w <= i32::MAX && h
            <= i32::MAX {
            Some((x, y, w, h))
        } else {
            None
        }
    } else {
        None
    }
}

impl Region {
    /// The textual forms that parse into a [`Region`].
    pub fn get_parser_formats() -> (r: [&'static str; 1])
        ensures
            r@.len() == 1,
            r@[0]@ == "{x},{y} {width}x{height}"@,
    {
        ["{x},{y} {width}x{height}"]
    }
}

/// Parses the `{x},{y} {width}x{height}` form into a [`Region`].
#[derive(Debug, Clone, Copy)]
pub struct RegionValueParser;

impl RegionValueParser {
    /// Parses a whole region string, `None` when it does not match the
    /// form or a value does not fit in 32 bits.
    pub fn parse(&self, value: &str) -> (r: Option<Region>)
        ensures
            match r {
                Some(reg) => spec_parse_region(value@) == Some(
                    (
                        reg.position.0 as int,
                        reg.position.1 as int,
                        reg.size.0 as int,
                        reg.size.1 as int,
                    ),
                ),
                None => spec_parse_region(value@) is None,
            },
    {
        let len = value.unicode_len();
        let x_neg = len > 0 && char_is(value.get_char(0), 45);
        let xs: usize = if x_neg {
            1
        } else {
            0
        };
        let xe = scan_digits(value, len, xs);
        if xe == xs || xe >= len || !char_is(value.get_char(xe), 44) {
            return None;
        }
        let ys = xe + 1;
        let y_neg = ys < len && char_is(value.get_char(ys), 45);
        let ysign: usize = if y_neg {
            ys + 1
        } else {
            ys
        };
        let ye = scan_digits(value, len, ysign);
        if ye == ysign || ye >= len || !char_is(value.get_char(ye), 32) {
            return None;
        }
        let ws = ye + 1;
        let we = scan_digits(value, len, ws);
        if we == ws || we >= len || !char_is(value.get_char(we), 120) {
            return None;
        }
        let hs = we + 1;
        let he = scan_digits(value, len, hs);
        if he == hs || he != len {
            return None;
        }
        proof {
            lemma_digits_end_digits(value@, xs as int);
            lemma_digits_end_digits(value@, ysign as int);
            lemma_digits_end_digits(value@, ws as int);
            lemma_digits_end_digits(value@, hs as int);
        }
        let xm = match parse_digits(value, len, xs, xe) {
            Some(v) => v,
            None => {
                return None;
            },
        };
        let ym = match parse_digits(value, len, ysign, ye) {
            Some(v) => v,
            None => {
                return None;
            },
        };
        let wm = match parse_digits(value, len, ws, we) {
            Some(v) => v,
            None => {
                return None;
            },
        };
        let hm = match parse_digits(value, len, hs, he) {
            Some(v) => v,
            None => {
                return None;
            },
        };
        let x = if x_neg {
            -xm
        } else {
            xm
        };
        let y = if y_neg {
            -ym
        } else {
            ym
        };
        if x < i32::MIN as i64 || x > i32::MAX as i64 || y < i32::MIN as i64 || y
            > i32::MAX as i64 || wm > i32::MAX as i64 || hm > i32::MAX as i64 {
            return None;
        }
        Some(
            Region {
                position: (x as i32, y as i32),
                size: (wm as i32, hm as i32),
            },
        )
    }
}

/// A capture rectangle in the `{w}x{h}+{x}+{y}` textual form.
#[derive(Debug, Clone, Copy, PartialEq, Eq, Structural)]
pub struct Rect {
    /// Left edge of the rectangle.
    pub x: i32,
    /// Top edge of the rectangle.
    pub y: i32,
    /// Width of the rectangle.
    pub w: i32,
    /// Height of the rectangle.
    pub h: i32,
}

/// What a rect string means: `Some` exactly when the whole string is
/// `{w}x{h}+{x}+{y}` with four unsigned numbers, each representable in
/// 32 bits.
pub open spec fn spec_parse_rect(s: Seq<char>) -> Option<(int, int, int, int)> {
    let we = digits_end(s, 0);
    let hs = we + 1;
    let he = digits_end(s, hs);
    let xs = he + 1;
    let xe = digits_end(s, xs);
    let ys = xe + 1;
    let ye = digits_end(s, ys);
    if we > 0 && we < s.len() && s[we] == 'x' && he > hs && he < s.len() && s[he] == '+' && xe
        > xs && xe < s.len() && s[xe] == '+' && ye > ys && ye == s.len() {
        let w = digits_value(s.subrange(0, we));
        let h = digits_value(s.subrange(hs, he));
        let x = digits_value(s.subrange(xs, xe));
        let y = digits_value(s.subrange(ys, ye));
        if w <= i32::MAX && h <= i32::MAX && x <= i32::MAX && y <= i32::MAX {
            Some((w, h, x, y))
        } else {
            None
        }
    } else {
        None
    }
}

impl Rect {
    /// The textual forms that parse into a [`Rect`].
    pub fn get_parser_formats() -> (r: [&'static str; 1])
        ensures
            r@.len() == 1,
            r@[0]@ == "{w}x{h}+{x}+{y}"@,
    {
        ["{w}x{h}+{x}+{y}"]
    }
}

/// Parses the `{w}x{h}+{x}+{y}` form into a [`Rect`].
#[derive(Debug, Clone, Copy)]
pub struct RectValueParser;

impl RectValueParser {
    /// Parses a whole rect string, `None` when it does not match the form
    /// or a value does not fit in 32 bits.
    pub fn parse(&self, value: &str) -> (r: Option<Rect>)
        ensures
            match r {
                Some(rect) => spec_parse_rect(value@) == Some(
                    (rect.w as int, rect.h as int, rect.x as int, rect.y as int),
                ),
                None => spec_parse_rect(value@) is None,
            },
    {
        let len = value.unicode_len();
        let we = scan_digits(value, len, 0);
        if we == 0 || we >= len || !char_is(value.get_char(we), 120) {
            return None;
        }
        let hs = we + 1;
        let he = scan_digits(value, len, hs);
        if he == hs || he >= len || !char_is(value.get_char(he), 43) {
            return None;
        }
        let xs = he + 1;
        let xe = scan_digits(value, len, xs);
        if xe == xs || xe >= len || !char_is(value.get_char(xe), 43) {
            return None;
        }
        let ys = xe + 1;
        let ye = scan_digits(value, len, ys);
        if ye == ys || ye != len {
            return None;
        }
        proof {
            lemma_digits_end_digits(value@, 0);
            lemma_digits_end_digits(value@, hs as int);
            lemma_digits_end_digits(value@, xs as int);
            lemma_digits_end_digits(value@, ys as int);
        }
        let wm = match parse_digits(value, len, 0, we) {
            Some(v) => v,
            None => {
                return None;
            },
        };
        let hm = match parse_digits(value, len, hs, he) {
            Some(v) => v,
            None => {
                return None;
            },
        };
        let xm = match parse_digits(value, len, xs, xe) {
            Some(v) => v,
            None => {
                return None;
            },
        };
        let ym = match parse_digits(value, len, ys, ye) {
            Some(v) => v,
            None => {
                return None;
            },
        };
        if wm > i32::MAX as i64 || hm > i32::MAX as i64 || xm > i32::MAX as i64 || ym
            > i32::MAX as i64 {
            return None;
        }
        Some(Rect { x: xm as i32, y: ym as i32, w: wm as i32, h: hm as i32 })
    }
}

} // verus!
