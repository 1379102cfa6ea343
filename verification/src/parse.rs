//! Parsing hex color strings.
//!
//! A color is written as three or six hex digits, with or without a
//! leading `#`; three digits abbreviate six by doubling each one.

use vstd::prelude::*;

use vstd::string::StrSliceExecFns;

use crate::err::CliError;

verus! {

/// An 8-bit-per-channel color, the result of parsing a hex color string.
#[derive(Clone, Copy, Debug, PartialEq, Eq, Structural)]
pub struct Rgb8 {
    /// Red channel.
    pub red: u8,
    /// Green channel.
    pub green: u8,
    /// Blue channel.
    pub blue: u8,
}

/// Whether `ch` is a hex digit (either case).
pub open spec fn is_hex_digit(ch: char) -> bool {
    (48 <= ch as int <= 57) || (97 <= ch as int <= 102) || (65 <= ch as int <= 70)
}

/// The value of the hex digit `ch`.
pub open spec fn hex_val(ch: char) -> int {
    let v = ch as int;
    if 48 <= v <= 57 {
        v - 48
    } else if 97 <= v <= 102 {
        v - 87
    } else {
        v - 55
    }
}

/// The string with a leading `#` removed, when it has one.
pub open spec fn strip_hash(s: Seq<char>) -> Seq<char> {
    if s.len() > 0 && s[0] == '#' {
        s.skip(1)
    } else {
        s
    }
}

/// Every character of `s` is a hex digit.
pub open spec fn all_hex(s: Seq<char>) -> bool {
    forall|i: int| 0 <= i < s.len() ==> is_hex_digit(#[trigger] s[i])
}

/// What a hex color string denotes: three digits double into six, six
/// pair into the three channels; anything else denotes no color.
pub open spec fn parse_color_spec(s: Seq<char>) -> Option<Rgb8> {
    let t = strip_hash(s);
    if t.len() == 3 && all_hex(t) {
        Option::Some(
            Rgb8 {
                red: (hex_val(t[0]) * 17) as u8,
                green: (hex_val(t[1]) * 17) as u8,
                blue: (hex_val(t[2]) * 17) as u8,
            },
        )
    } else if t.len() == 6 && all_hex(t) {
        Option::Some(
            Rgb8 {
                red: (hex_val(t[0]) * 16 + hex_val(t[1])) as u8,
                green: (hex_val(t[2]) * 16 + hex_val(t[3])) as u8,
                blue: (hex_val(t[4]) * 16 + hex_val(t[5])) as u8,
            },
        )
    } else {
        Option::None
    }
}

/// The value of one hex digit, or nothing.
fn hex_digit(c: char) -> (r: Option<u8>)
    ensures
        r is Some <==> is_hex_digit(c),
        r is Some ==> r->0 == hex_val(c) && r->0 <= 15,
{
    let v = c as u32;
    if 48 <= v && v <= 57 {
        Some((v - 48) as u8)
    } else if 97 <= v && v <= 102 {
        Some((v - 87) as u8)
    } else if 65 <= v && v <= 70 {
        Some((v - 55) as u8)
    } else {
        None
    }
}

/// Parse a hex string into a color.
///
/// Succeeds exactly on strings of three or six hex digits, with or
/// without a leading `#`; everything else is an invalid hex color.
pub fn parse_color(c: &str) -> (r: Result<Rgb8, CliError>)
    ensures
        parse_color_spec(c@) is Some ==> r is Ok && r->Ok_0 == parse_color_spec(c@)->0,
        parse_color_spec(c@) is None ==> r is Err && r->Err_0 is InvalidHex,
{
    let n = c.unicode_len();
    let start: usize = if n >= 1 && c.get_char(0) == '#' {
        1
    } else {
        0
    };
    let len = n - start;
    let ghost t = strip_hash(c@);
    proof {
        assert(t.len() == len);
        assert(forall|i: int| 0 <= i < t.len() ==> t[i] == c@[start + i]);
    }
    if len == 3 {
        let d0 = hex_digit(c.get_char(start));
        let d1 = hex_digit(c.get_char(start + 1));
        let d2 = hex_digit(c.get_char(start + 2));
        match (d0, d1, d2) {
            (Some(r0), Some(g0), Some(b0)) => Ok(
                Rgb8 { red: r0 * 17, green: g0 * 17, blue: b0 * 17 },
            ),
            _ => {
                proof {
                    assert(!all_hex(t)) by {
                        if d0 is None {
                            assert(!is_hex_digit(t[0]));
                        } else if d1 is None {
                            assert(!is_hex_digit(t[1]));
                        } else {
                            assert(!is_hex_digit(t[2]));
                        }
                    }
                }
                Err(CliError::InvalidHex)
            },
        }
    } else if len == 6 {
        let d0 = hex_digit(c.get_char(start));
        let d1 = hex_digit(c.get_char(start + 1));
        let d2 = hex_digit(c.get_char(start + 2));
        let d3 = hex_digit(c.get_char(start + 3));
        let d4 = hex_digit(c.get_char(start + 4));
        let d5 = hex_digit(c.get_char(start + 5));
        match (d0, d1, d2, d3, d4, d5) {
            (Some(h0), Some(h1), Some(h2), Some(h3), Some(h4), Some(h5)) => Ok(
                Rgb8 {
                    red: h0 * 16 + h1,
                    green: h2 * 16 + h3,
                    blue: h4 * 16 + h5,
                },
            ),
            _ => {
                proof {
                    assert(!all_hex(t)) by {
                        if d0 is None {
                            assert(!is_hex_digit(t[0]));
                        } else if d1 is None {
                            assert(!is_hex_digit(t[1]));
                        } else if d2 is None {
                            assert(!is_hex_digit(t[2]));
                        } else if d3 is None {
                            assert(!is_hex_digit(t[3]));
                        } else if d4 is None {
                            assert(!is_hex_digit(t[4]));
                        } else {
                            assert(!is_hex_digit(t[5]));
                        }
                    }
                }
                Err(CliError::InvalidHex)
            },
        }
    } else {
        Err(CliError::InvalidHex)
    }
}

} // verus!
