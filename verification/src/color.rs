//! Color handling: parsing `#RRGGBB` strings and the soft-fallback policy
//! that substitutes a default for any malformed color.

use vstd::prelude::*;
use vstd::string::StrSliceExecFns;
use crate::pixel::Rgba;

verus! {

/// A hexadecimal digit, upper or lower case.
pub open spec fn is_hex_digit(c: char) -> bool {
    ('0' as int <= c as int && c as int <= '9' as int) || ('a' as int <= c as int && c as int
        <= 'f' as int) || ('A' as int <= c as int && c as int <= 'F' as int)
}

/// Numeric value of a hexadecimal digit.
pub open spec fn hex_digit_val(c: char) -> int {
    if '0' as int <= c as int && c as int <= '9' as int {
        c as int - '0' as int
    } else if 'a' as int <= c as int && c as int <= 'f' as int {
        10 + c as int - 'a' as int
    } else {
        10 + c as int - 'A' as int
    }
}

/// A well-formed color string: exactly seven characters, a leading `#`,
/// then six hexadecimal digits.
pub open spec fn valid_hex_color(s: Seq<char>) -> bool {
    s.len() == 7 && s[0] == '#' && (forall|i: int| 1 <= i < 7 ==> is_hex_digit(#[trigger] s[i]))
}

/// The opaque color a valid `#RRGGBB` string denotes.
pub open spec fn hex_color_rgba(s: Seq<char>) -> Rgba {
    Rgba {
        r: (hex_digit_val(s[1]) * 16 + hex_digit_val(s[2])) as u8,
        g: (hex_digit_val(s[3]) * 16 + hex_digit_val(s[4])) as u8,
        b: (hex_digit_val(s[5]) * 16 + hex_digit_val(s[6])) as u8,
        a: 255,
    }
}

/// Numeric value of one hexadecimal digit, or `None` for any other character.
pub fn hex_digit_value(c: char) -> (r: Option<u8>)
    ensures
        r is Some <==> is_hex_digit(c),
        r matches Some(v) ==> v as int == hex_digit_val(c) && v < 16,
{
    let v = c as u32;
    if 48 <= v && v <= 57 {
        Some((v - 48) as u8)
    } else if 97 <= v && v <= 102 {
        Some((v - 97 + 10) as u8)
    } else if 65 <= v && v <= 70 {
        Some((v - 65 + 10) as u8)
    } else {
        None
    }
}

/// Parses a `#RRGGBB` color string. Returns `Some` exactly on well-formed
/// strings, and then the color the string denotes.
pub fn hex_to_rgba(hex: &str) -> (r: Option<Rgba>)
    ensures
        r is Some <==> valid_hex_color(hex@),
        r matches Some(c) ==> c == hex_color_rgba(hex@),
{
    if hex.unicode_len() != 7 {
        return None;
    }
    if hex.get_char(0) != '#' {
        return None;
    }
    let d1 = hex_digit_value(hex.get_char(1));
    let d2 = hex_digit_value(hex.get_char(2));
    let d3 = hex_digit_value(hex.get_char(3));
    let d4 = hex_digit_value(hex.get_char(4));
    let d5 = hex_digit_value(hex.get_char(5));
    let d6 = hex_digit_value(hex.get_char(6));
    match (d1, d2, d3, d4, d5, d6) {
        (Some(v1), Some(v2), Some(v3), Some(v4), Some(v5), Some(v6)) => {
            assert forall|i: int| 1 <= i < 7 implies is_hex_digit(#[trigger] hex@[i]) by {
                if i == 1 {
                } else if i == 2 {
                } else if i == 3 {
                } else if i == 4 {
                } else if i == 5 {
                } else {
                    assert(i == 6);
                }
            }
            Some(Rgba { r: v1 * 16 + v2, g: v3 * 16 + v4, b: v5 * 16 + v6, a: 255 })
        },
        _ => None,
    }
}

/// View of an optional color parameter as the sequence of its characters.
pub open spec fn opt_str_view(o: Option<String>) -> Option<Seq<char>> {
    match o {
        Some(s) => Some(s@),
        None => None,
    }
}

/// The color that an optional, possibly malformed parameter resolves to:
/// a valid `#RRGGBB` string denotes its color, anything else (absent,
/// wrong length, missing `#`, non-hex digits) falls back to the default.
pub open spec fn effective_color(o: Option<Seq<char>>, default: Rgba) -> Rgba {
    match o {
        Some(s) => if valid_hex_color(s) {
            hex_color_rgba(s)
        } else {
            default
        },
        None => default,
    }
}

/// Resolves an optional color parameter, substituting the default for any
/// malformed value; resolution never fails.
pub fn color_or_default(o: &Option<String>, default: Rgba) -> (r: Rgba)
    ensures
        r == effective_color(opt_str_view(*o), default),
{
    match o {
        Some(s) => match hex_to_rgba(s.as_str()) {
            Some(c) => c,
            None => default,
        },
        None => default,
    }
}

/// A malformed color string never causes a failure: the default is used.
pub proof fn lemma_invalid_color_falls_back(s: Seq<char>, default: Rgba)
    requires
        !valid_hex_color(s),
    ensures
        effective_color(Some(s), default) == default,
{
}

} // verus!
