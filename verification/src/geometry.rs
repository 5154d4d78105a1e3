//! Screen rectangles and the `WxH+X+Y` geometry syntax.

use vstd::prelude::*;
use crate::text::{all_digits, decimal, is_digit, lemma_decimal, lemma_split_once_at, digits_value, find_char, parse_digits, split_once, to_chars};

verus! {

/// A screen rectangle: origin `(x, y)` and size `w` x `h` in pixels.
#[derive(Debug, Clone, Copy, PartialEq, Eq, Structural)]
pub struct Rect {
    pub x: i16,
    pub y: i16,
    pub w: u16,
    pub h: u16,
}

/// `str::parse::<T>` for an unsigned integer type whose maximum is `max`:
/// an optional `+` followed by at least one decimal digit, value at most `max`.
pub open spec fn spec_parse_unsigned(s: Seq<char>, max: nat) -> Option<nat> {
    let ds = if s.len() > 0 && s[0] == '+' {
        s.drop_first()
    } else {
        s
    };
    if ds.len() > 0 && all_digits(ds) && digits_value(ds) <= max {
        Some(digits_value(ds))
    } else {
        None
    }
}

/// `str::parse::<u16>`.
pub open spec fn spec_parse_u16(s: Seq<char>) -> Option<u16> {
    match spec_parse_unsigned(s, 65535) {
        Some(v) => Some(v as u16),
        None => None,
    }
}

/// `str::parse::<i16>`: an optional sign (`+` or `-`) followed by at least
/// one decimal digit, value in `-32768..=32767`.
pub open spec fn spec_parse_i16(s: Seq<char>) -> Option<i16> {
    if s.len() > 0 && s[0] == '-' {
        let ds = s.drop_first();
        if ds.len() > 0 && all_digits(ds) && digits_value(ds) <= 32768 {
            Some((0 - digits_value(ds)) as i16)
        } else {
            None
        }
    } else {
        match spec_parse_unsigned(s, 32767) {
            Some(v) => Some(v as i16),
            None => None,
        }
    }
}

/// The message for a string that is not of the shape `W x H + X + Y`.
pub open spec fn bad_format_message() -> Seq<char> {
    "bad geometry, expected WxH+X+Y"@
}

/// What `parse_geometry` gives for the string `s`.
pub open spec fn spec_parse_geometry(s: Seq<char>) -> Result<Rect, Seq<char>> {
    match split_once(s, '+') {
        None => Err(bad_format_message()),
        Some((wh, xy)) => match split_once(wh, 'x') {
            None => Err(bad_format_message()),
            Some((ws, hs)) => match split_once(xy, '+') {
                None => Err(bad_format_message()),
                Some((xs, ys)) => match spec_parse_u16(ws) {
                    None => Err("bad width"@),
                    Some(w) => match spec_parse_u16(hs) {
                        None => Err("bad height"@),
                        Some(h) => match spec_parse_i16(xs) {
                            None => Err("bad x"@),
                            Some(x) => match spec_parse_i16(ys) {
                                None => Err("bad y"@),
                                Some(y) => Ok(Rect { x, y, w, h }),
                            },
                        },
                    },
                },
            },
        },
    }
}

/// Parses an unsigned number with an optional leading `+` in `cs[start..end]`.
fn parse_unsigned_range(cs: &Vec<char>, start: usize, end: usize, max: u32) -> (r: Option<u32>)
    requires
        start <= end <= cs@.len(),
        max < 100000,
    ensures
        match spec_parse_unsigned(cs@.subrange(start as int, end as int), max as nat) {
            Some(v) => r == Some(v as u32),
            None => r is None,
        },
{
    let ghost s = cs@.subrange(start as int, end as int);
    if start < end && cs[start] == '+' {
        assert(s.drop_first() =~= cs@.subrange(start + 1, end as int));
        parse_digits(cs, start + 1, end, max)
    } else {
        parse_digits(cs, start, end, max)
    }
}

/// `str::parse::<u16>` on `cs[start..end]`.
pub fn parse_u16_range(cs: &Vec<char>, start: usize, end: usize) -> (r: Option<u16>)
    requires
        start <= end <= cs@.len(),
    ensures
        r == spec_parse_u16(cs@.subrange(start as int, end as int)),
{
    match parse_unsigned_range(cs, start, end, 65535) {
        Some(v) => Some(v as u16),
        None => None,
    }
}

/// `str::parse::<i16>` on `cs[start..end]`.
pub fn parse_i16_range(cs: &Vec<char>, start: usize, end: usize) -> (r: Option<i16>)
    requires
        start <= end <= cs@.len(),
    ensures
        r == spec_parse_i16(cs@.subrange(start as int, end as int)),
{
    let ghost s = cs@.subrange(start as int, end as int);
    if start < end && cs[start] == '-' {
        assert(s.drop_first() =~= cs@.subrange(start + 1, end as int));
        match parse_digits(cs, start + 1, end, 32768) {
            Some(v) => {
                let m: i32 = 0 - (v as i32);
                Some(m as i16)
            },
            None => None,
        }
    } else {
        match parse_unsigned_range(cs, start, end, 32767) {
            Some(v) => Some(v as i16),
            None => None,
        }
    }
}

/// Parses a geometry string of the form `WxH+X+Y`: width and height are
/// `u16`, the offsets `i16` (they may be negative, as in `100x50+-10+-20`).
/// The error names the first part that failed.
pub fn parse_geometry(s: &str) -> (r: Result<Rect, String>)
    ensures
        match (r, spec_parse_geometry(s@)) {
            (Ok(a), Ok(b)) => a == b,
            (Err(e), Err(m)) => e@ == m,
            _ => false,
        },
{
    let cs = to_chars(s);
    let n = cs.len();
    assert(cs@.subrange(0, n as int) =~= s@);
    let p1 = match find_char(&cs, 0, n, '+') {
        Some(p) => p,
        None => {
            return Err(String::from_str("bad geometry, expected WxH+X+Y"));
        },
    };
    let ghost wh = s@.subrange(0, p1 as int);
    let ghost xy = s@.subrange(p1 + 1, n as int);
    assert(split_once(s@, '+') == Some((wh, xy)));
    let px = match find_char(&cs, 0, p1, 'x') {
        Some(p) => p,
        None => {
            assert(cs@.subrange(0, p1 as int) =~= wh);
            return Err(String::from_str("bad geometry, expected WxH+X+Y"));
        },
    };
    assert(cs@.subrange(0, p1 as int) =~= wh);
    assert(wh.subrange(0, px as int) =~= cs@.subrange(0, px as int));
    assert(wh.subrange(px + 1, wh.len() as int) =~= cs@.subrange(px + 1, p1 as int));
    let p2 = match find_char(&cs, p1 + 1, n, '+') {
        Some(p) => p,
        None => {
            assert(cs@.subrange(p1 + 1, n as int) =~= xy);
            return Err(String::from_str("bad geometry, expected WxH+X+Y"));
        },
    };
    assert(cs@.subrange(p1 + 1, n as int) =~= xy);
    assert(xy.subrange(0, p2 - p1 - 1) =~= cs@.subrange(p1 + 1, p2 as int));
    assert(xy.subrange(p2 - p1, xy.len() as int) =~= cs@.subrange(p2 + 1, n as int));
    let w = match parse_u16_range(&cs, 0, px) {
        Some(v) => v,
        None => {
            return Err(String::from_str("bad width"));
        },
    };
    let h = match parse_u16_range(&cs, px + 1, p1) {
        Some(v) => v,
        None => {
            return Err(String::from_str("bad height"));
        },
    };
    let x = match parse_i16_range(&cs, p1 + 1, p2) {
        Some(v) => v,
        None => {
            return Err(String::from_str("bad x"));
        },
    };
    let y = match parse_i16_range(&cs, p2 + 1, n) {
        Some(v) => v,
        None => {
            return Err(String::from_str("bad y"));
        },
    };
    Ok(Rect { x, y, w, h })
}

} // verus!

verus! {

/// A signed number as `i16`'s `Display` writes it.
pub open spec fn render_signed(v: int) -> Seq<char> {
    if v < 0 {
        seq!['-'] + decimal((0 - v) as nat)
    } else {
        decimal(v as nat)
    }
}

/// The canonical geometry string of a rectangle, `"{w}x{h}+{x}+{y}"`.
pub open spec fn render_geometry(r: Rect) -> Seq<char> {
    decimal(r.w as nat) + seq!['x'] + decimal(r.h as nat) + seq!['+'] + render_signed(r.x as int)
        + seq!['+'] + render_signed(r.y as int)
}

proof fn lemma_render_signed(v: int)
    requires
        -32768 <= v <= 32767,
    ensures
        spec_parse_i16(render_signed(v)) == Some(v as i16),
        forall|j: int| 0 <= j < render_signed(v).len() ==> render_signed(v)[j] != '+',
{
    let s = render_signed(v);
    if v < 0 {
        let m = (0 - v) as nat;
        lemma_decimal(m);
        assert(s.drop_first() =~= decimal(m));
        assert forall|j: int| 0 <= j < s.len() implies s[j] != '+' by {
            if j > 0 {
                assert(s[j] == decimal(m)[j - 1]);
                assert(is_digit(decimal(m)[j - 1]));
            }
        }
    } else {
        lemma_decimal(v as nat);
        assert(is_digit(s[0]));
        assert forall|j: int| 0 <= j < s.len() implies s[j] != '+' by {
            assert(is_digit(s[j]));
        }
    }
}

proof fn lemma_render_unsigned(v: nat)
    requires
        v <= 65535,
    ensures
        spec_parse_u16(decimal(v)) == Some(v as u16),
        forall|j: int| 0 <= j < decimal(v).len() ==> decimal(v)[j] != '+' && decimal(v)[j] != 'x',
{
    lemma_decimal(v);
    let s = decimal(v);
    assert(is_digit(s[0]));
    assert forall|j: int| 0 <= j < s.len() implies s[j] != '+' && s[j] != 'x' by {
        assert(is_digit(s[j]));
    }
}

/// Every rectangle survives a round trip through its canonical geometry
/// string: `parse_geometry` gives back exactly the rectangle that was written.
pub proof fn lemma_geometry_roundtrip(r: Rect)
    ensures
        spec_parse_geometry(render_geometry(r)) == Ok::<Rect, Seq<char>>(r),
{
    let dw = decimal(r.w as nat);
    let dh = decimal(r.h as nat);
    let sx = render_signed(r.x as int);
    let sy = render_signed(r.y as int);
    lemma_render_unsigned(r.w as nat);
    lemma_render_unsigned(r.h as nat);
    lemma_render_signed(r.x as int);
    lemma_render_signed(r.y as int);
    let wh = dw + seq!['x'] + dh;
    let xy = sx + seq!['+'] + sy;
    assert(render_geometry(r) =~= wh + seq!['+'] + xy);
    assert forall|j: int| 0 <= j < wh.len() implies wh[j] != '+' by {
        if j < dw.len() {
            assert(wh[j] == dw[j]);
        } else if j > dw.len() {
            assert(wh[j] == dh[j - dw.len() - 1]);
        }
    }
    lemma_split_once_at(wh, '+', xy);
    lemma_split_once_at(dw, 'x', dh);
    lemma_split_once_at(sx, '+', sy);
}

} // verus!
