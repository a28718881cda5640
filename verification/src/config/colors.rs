//! Colors written as `#RRGGBB` or `#RRGGBBAA`.
use vstd::prelude::*;

use crate::config::warnings;
use crate::config::warnings::{collect_warn, Severity, Warnings};
use crate::text::{chars_of, join5};

verus! {

#[derive(Clone, Copy, Debug, PartialEq, Eq, Structural)]
pub struct Rgba {
    pub r: u8,
    pub g: u8,
    pub b: u8,
    pub a: u8,
}

/// The value of a hexadecimal digit.
pub open spec fn hex_digit(c: char) -> Option<int> {
    if '0' <= c && c <= '9' {
        Some((c as int) - ('0' as int))
    } else if 'a' <= c && c <= 'f' {
        Some((c as int) - ('a' as int) + 10)
    } else if 'A' <= c && c <= 'F' {
        Some((c as int) - ('A' as int) + 10)
    } else {
        None
    }
}

/// The byte that two characters stand for in base 16; the first may be a plus
/// sign.
pub open spec fn hex_byte(c: char, d: char) -> Option<u8> {
    match hex_digit(d) {
        None => None,
        Some(low) => if c == '+' {
            Some(low as u8)
        } else {
            match hex_digit(c) {
                None => None,
                Some(high) => Some((16 * high + low) as u8),
            }
        },
    }
}

/// The number of bytes that a character takes in UTF-8.
pub open spec fn width(c: char) -> int {
    let n = c as int;
    if n < 0x80 {
        1
    } else if n < 0x800 {
        2
    } else if n < 0x1_0000 {
        3
    } else {
        4
    }
}

/// The number of bytes that a text takes in UTF-8.
pub open spec fn byte_len(s: Seq<char>) -> int
    decreases s.len(),
{
    if s.len() == 0 {
        0
    } else {
        byte_len(s.drop_last()) + width(s.last())
    }
}

/// Reading `s` two bytes at a time, up to the first pair that is no
/// hexadecimal byte, does a pair end inside a character?
pub open spec fn tears(s: Seq<char>) -> bool
    decreases s.len(),
{
    if s.len() == 0 {
        false
    } else if width(s[0]) == 1 {
        if s.len() == 1 {
            false
        } else if width(s[1]) > 1 {
            true
        } else {
            hex_byte(s[0], s[1]) is Some && tears(s.skip(2))
        }
    } else {
        width(s[0]) > 2
    }
}

/// A color text can be read byte by byte unless a byte pair of its digits
/// ends inside a character.
pub open spec fn readable(s: Seq<char>) -> bool {
    s.len() > 0 && s[0] == '#' && (byte_len(s.drop_first()) == 6 || byte_len(s.drop_first()) == 8)
        ==> !tears(s.drop_first())
}

/// An optional color text that can be read.
pub open spec fn opt_readable(o: Option<String>) -> bool {
    match o {
        Some(s) => readable(s@),
        None => true,
    }
}

/// The color that a text stands for: a `#` and three or four bytes in base 16.
pub open spec fn color_of(s: Seq<char>) -> Option<Rgba> {
    if s.len() == 7 && s[0] == '#' {
        match (hex_byte(s[1], s[2]), hex_byte(s[3], s[4]), hex_byte(s[5], s[6])) {
            (Some(r), Some(g), Some(b)) => Some(Rgba { r, g, b, a: 0xff }),
            _ => None,
        }
    } else if s.len() == 9 && s[0] == '#' {
        match (
            hex_byte(s[1], s[2]),
            hex_byte(s[3], s[4]),
            hex_byte(s[5], s[6]),
            hex_byte(s[7], s[8]),
        ) {
            (Some(r), Some(g), Some(b), Some(a)) => Some(Rgba { r, g, b, a }),
            _ => None,
        }
    } else {
        None
    }
}

fn parse_hex_digit(c: char) -> (r: Option<u8>)
    ensures
        match r {
            Some(n) => hex_digit(c) == Some(n as int) && n < 16,
            None => hex_digit(c) is None,
        },
{
    let n: u32 = c as u32;
    if '0' <= c && c <= '9' {
        Some((n - 48) as u8)
    } else if 'a' <= c && c <= 'f' {
        Some((n - 97 + 10) as u8)
    } else if 'A' <= c && c <= 'F' {
        Some((n - 65 + 10) as u8)
    } else {
        None
    }
}

fn parse_hex_byte(c: char, d: char) -> (r: Option<u8>)
    ensures
        r == hex_byte(c, d),
{
    match parse_hex_digit(d) {
        None => None,
        Some(low) => {
            if c == '+' {
                Some(low)
            } else {
                match parse_hex_digit(c) {
                    None => None,
                    Some(high) => Some(16 * high + low),
                }
            }
        },
    }
}

fn char_width(c: char) -> (r: usize)
    ensures
        r == width(c),
        1 <= r <= 4,
{
    let n: u32 = c as u32;
    if n < 0x80 {
        1
    } else if n < 0x800 {
        2
    } else if n < 0x1_0000 {
        3
    } else {
        4
    }
}

fn tears_from(v: &Vec<char>, i: usize) -> (r: bool)
    requires
        i <= v@.len(),
    ensures
        r == tears(v@.skip(i as int)),
    decreases v@.len() - i,
{
    let n: usize = v.len();
    if i == n {
        return false;
    }
    let w: usize = char_width(v[i]);
    if w > 1 {
        return w > 2;
    }
    if i == n - 1 {
        return false;
    }
    if char_width(v[i + 1]) > 1 {
        return true;
    }
    proof {
        assert(v@.skip(i as int).skip(2) =~= v@.skip(i + 2));
    }
    match parse_hex_byte(v[i], v[i + 1]) {
        None => false,
        Some(_) => tears_from(v, i + 2),
    }
}

/// The byte length of `v` from index 1 on, or 9 where it is more than 8.
fn short_byte_len(v: &Vec<char>) -> (r: usize)
    requires
        v@.len() > 0,
    ensures
        r <= 9,
        r <= 8 ==> r == byte_len(v@.drop_first()),
        r == 9 ==> byte_len(v@.drop_first()) > 8,
{
    let n: usize = v.len();
    let ghost t = v@.drop_first();
    let mut i: usize = 1;
    let mut total: usize = 0;
    while i < n
        invariant
            1 <= i <= n,
            n == v@.len(),
            t == v@.drop_first(),
            total == byte_len(t.take(i - 1)),
            total <= 8,
        decreases n - i,
    {
        proof {
            assert(t.take(i as int).drop_last() =~= t.take(i - 1));
            assert(t.take(i as int).last() == v@[i as int]);
            lemma_byte_len_grows(t, i as int);
        }
        total = total + char_width(v[i]);
        if total > 8 {
            return 9;
        }
        i = i + 1;
    }
    proof {
        assert(t.take(n - 1) =~= t);
    }
    total
}

proof fn lemma_byte_len_grows(s: Seq<char>, k: int)
    requires
        0 <= k <= s.len(),
    ensures
        byte_len(s.take(k)) <= byte_len(s),
    decreases s.len() - k,
{
    if k < s.len() {
        lemma_byte_len_grows(s, k + 1);
        assert(s.take(k + 1).drop_last() =~= s.take(k));
    } else {
        assert(s.take(k) =~= s);
    }
}

/// Can a color text be read byte by byte?
pub fn is_readable(s: &str) -> (r: bool)
    ensures
        r == readable(s@),
{
    let v: Vec<char> = chars_of(s);
    if v.len() == 0 || v[0] != '#' {
        return true;
    }
    let n: usize = short_byte_len(&v);
    proof {
        assert(v@.skip(1) =~= s@.drop_first());
    }
    (n != 6 && n != 8) || !tears_from(&v, 1)
}

/// Parse a color text.
pub fn parse_color(s: &str) -> (r: Option<Rgba>)
    requires
        readable(s@),
    ensures
        r == color_of(s@),
{
    let v: Vec<char> = chars_of(s);
    if v.len() == 7 && v[0] == '#' {
        match (
            parse_hex_byte(v[1], v[2]),
            parse_hex_byte(v[3], v[4]),
            parse_hex_byte(v[5], v[6]),
        ) {
            (Some(r), Some(g), Some(b)) => Some(Rgba { r, g, b, a: 0xff }),
            _ => None,
        }
    } else if v.len() == 9 && v[0] == '#' {
        match (
            parse_hex_byte(v[1], v[2]),
            parse_hex_byte(v[3], v[4]),
            parse_hex_byte(v[5], v[6]),
            parse_hex_byte(v[7], v[8]),
        ) {
            (Some(r), Some(g), Some(b), Some(a)) => Some(Rgba { r, g, b, a }),
            _ => None,
        }
    } else {
        None
    }
}

/// The color of an optional text, or the default.
pub open spec fn color_or(o: Option<String>, default: Rgba) -> Rgba {
    match o {
        Some(s) => match color_of(s@) {
            Some(c) => c,
            None => default,
        },
        None => default,
    }
}

/// The warning about a color text that stands for none.
pub open spec fn color_warning(o: Option<String>, before: Seq<char>, after: Seq<char>) -> Seq<
    (Severity, Seq<char>),
> {
    match o {
        Some(s) => if color_of(s@) is None {
            warnings::rejected(before + s@ + after)
        } else {
            warnings::silent()
        },
        None => warnings::silent(),
    }
}

/// The warning that `resolve_color` gives for the color setting `name`.
pub open spec fn named_color_warning(o: Option<String>, name: Seq<char>) -> Seq<
    (Severity, Seq<char>),
> {
    color_warning(o, "config: invalid "@ + name + " color '"@, "', using default"@)
}

/// The color of the setting `name`, or the default with a warning.
pub fn resolve_color(opt: &Option<String>, default: Rgba, name: &str, errors: &mut Warnings) -> (r:
    Rgba)
    requires
        opt_readable(*opt),
    ensures
        r == color_or(*opt, default),
        warnings::warned(final(errors)@) == warnings::warned(old(errors)@) + named_color_warning(
            *opt,
            name@,
        ),
{
    match opt {
        Some(s) => match parse_color(s.as_str()) {
            Some(c) => {
                proof {
                    assert(warnings::warned(errors@) + warnings::silent() =~= warnings::warned(
                        errors@,
                    ));
                }
                c
            },
            None => {
                let msg: String = join5(
                    "config: invalid ",
                    name,
                    " color '",
                    s.as_str(),
                    "', using default",
                );
                collect_warn(errors, msg);
                default
            },
        },
        None => {
            proof {
                assert(warnings::warned(errors@) + warnings::silent() =~= warnings::warned(
                    errors@,
                ));
            }
            default
        },
    }
}

} // verus!
