//! Resolution of colour names and hex triplets into RGB triples.
use vstd::prelude::*;
use crate::matrix::QrError;
use crate::text::{hex_value, hex_value_of, lowercase, lower_of, str_eq, trim_of, trim_str};

verus! {

/// The RGB triple of one of the known colour names, given in lower case.
pub open spec fn named_color(name: Seq<char>) -> Option<[u8; 3]> {
    if name == seq!['b', 'l', 'a', 'c', 'k'] {
        Some([0u8, 0u8, 0u8])
    } else if name == seq!['w', 'h', 'i', 't', 'e'] {
        Some([255u8, 255u8, 255u8])
    } else if name == seq!['r', 'e', 'd'] {
        Some([255u8, 0u8, 0u8])
    } else if name == seq!['g', 'r', 'e', 'e', 'n'] {
        Some([0u8, 255u8, 0u8])
    } else if name == seq!['b', 'l', 'u', 'e'] {
        Some([0u8, 0u8, 255u8])
    } else {
        None
    }
}

/// `s` without one leading `#`, if it has one.
pub open spec fn strip_hash(s: Seq<char>) -> Seq<char> {
    if s.len() > 0 && s[0] == '#' {
        s.drop_first()
    } else {
        s
    }
}

/// The byte written by two hexadecimal digits, high digit first.
pub open spec fn hex_byte(hi: char, lo: char) -> Option<u8> {
    match (hex_value(hi), hex_value(lo)) {
        (Some(a), Some(b)) => Some((a * 16 + b) as u8),
        _ => None,
    }
}

/// The RGB triple written as six hexadecimal digits, after an optional `#`.
pub open spec fn hex_color(s: Seq<char>) -> Option<[u8; 3]> {
    let h = strip_hash(s);
    if h.len() != 6 {
        None
    } else {
        match (hex_byte(h[0], h[1]), hex_byte(h[2], h[3]), hex_byte(h[4], h[5])) {
            (Some(r), Some(g), Some(b)) => Some([r, g, b]),
            _ => None,
        }
    }
}

/// The colour that an input denotes: the input is trimmed, then matched
/// against the colour names regardless of case, then read as a hex triplet.
pub open spec fn color_value(s: Seq<char>) -> Option<[u8; 3]> {
    let t = trim_of(s);
    match named_color(lower_of(t)) {
        Some(c) => Some(c),
        None => hex_color(t),
    }
}

fn named_color_of(name: &str) -> (r: Option<[u8; 3]>)
    ensures
        r == named_color(name@),
{
    proof {
        reveal_strlit("black");
        reveal_strlit("white");
        reveal_strlit("red");
        reveal_strlit("green");
        reveal_strlit("blue");
    }
    assert("black"@ =~= seq!['b', 'l', 'a', 'c', 'k']);
    assert("white"@ =~= seq!['w', 'h', 'i', 't', 'e']);
    assert("red"@ =~= seq!['r', 'e', 'd']);
    assert("green"@ =~= seq!['g', 'r', 'e', 'e', 'n']);
    assert("blue"@ =~= seq!['b', 'l', 'u', 'e']);
    if str_eq(name, "black") {
        Some([0u8, 0u8, 0u8])
    } else if str_eq(name, "white") {
        Some([255u8, 255u8, 255u8])
    } else if str_eq(name, "red") {
        Some([255u8, 0u8, 0u8])
    } else if str_eq(name, "green") {
        Some([0u8, 255u8, 0u8])
    } else if str_eq(name, "blue") {
        Some([0u8, 0u8, 255u8])
    } else {
        None
    }
}

fn hex_byte_of(hi: char, lo: char) -> (r: Option<u8>)
    ensures
        r == hex_byte(hi, lo),
{
    match (hex_value_of(hi), hex_value_of(lo)) {
        (Some(a), Some(b)) => {
            assert(a < 16 && b < 16);
            Some(a * 16 + b)
        },
        _ => None,
    }
}

fn hex_color_of(s: &str) -> (r: Option<[u8; 3]>)
    ensures
        r == hex_color(s@),
{
    let n = s.unicode_len();
    let h = if n > 0 && s.get_char(0) == '#' {
        s.substring_char(1, n)
    } else {
        s
    };
    assert(h@ =~= strip_hash(s@));
    if h.unicode_len() != 6 {
        return None;
    }
    let r = hex_byte_of(h.get_char(0), h.get_char(1));
    let g = hex_byte_of(h.get_char(2), h.get_char(3));
    let b = hex_byte_of(h.get_char(4), h.get_char(5));
    match (r, g, b) {
        (Some(r), Some(g), Some(b)) => Some([r, g, b]),
        _ => None,
    }
}

/// Resolves a colour from its trimmed text and the lower-case form of that
/// text: a colour name first, then a hex triplet.
pub fn resolve_color(trimmed: &str, lowered: &str) -> (r: Option<[u8; 3]>)
    ensures
        r == match named_color(lowered@) {
            Some(c) => Some(c),
            None => hex_color(trimmed@),
        },
{
    match named_color_of(lowered) {
        Some(c) => Some(c),
        None => hex_color_of(trimmed),
    }
}

/// Resolves a colour given by name (black, white, red, green, blue, in any
/// case) or as a hex triplet `#rrggbb` (the `#` optional) into an RGB triple.
/// White space around the input is ignored; any other input fails with
/// `InvalidColor` carrying the input.
pub fn parse_color(color: &str) -> (r: Result<[u8; 3], QrError>)
    ensures
        match r {
            Ok(c) => color_value(color@) == Some(c),
            Err(e) => color_value(color@) is None && e is InvalidColor && e->InvalidColor_0@
                == color@,
        },
{
    let t = trim_str(color);
    let lowered = lowercase(t);
    match resolve_color(t, lowered.as_str()) {
        Some(c) => Ok(c),
        None => Err(QrError::InvalidColor(color.to_string())),
    }
}

} // verus!
