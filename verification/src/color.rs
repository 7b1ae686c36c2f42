//! Hex colors: `#rrggbb` to a red, green and blue component.

use vstd::prelude::*;
use vstd::string::*;
use vstd::utf8::encode_utf8;

verus! {

/// The red component used where the text gives none.
pub const DEFAULT_RED: u8 = 99;

/// The green component used where the text gives none.
pub const DEFAULT_GREEN: u8 = 200;

/// The blue component used where the text gives none.
pub const DEFAULT_BLUE: u8 = 255;

/// The value of one hexadecimal digit, upper or lower case.
pub open spec fn hex_value(b: u8) -> Option<u8> {
    if 0x30 <= b && b <= 0x39 {
        Some((b - 0x30) as u8)
    } else if 0x61 <= b && b <= 0x66 {
        Some((b - 0x61 + 10) as u8)
    } else if 0x41 <= b && b <= 0x46 {
        Some((b - 0x41 + 10) as u8)
    } else {
        None
    }
}

/// The number written by the two bytes at `at` and `at + 1`: two hexadecimal
/// digits, or a plus sign and one digit. `None` when the bytes are not there
/// or write no number.
pub open spec fn hex_pair(bytes: Seq<u8>, at: int) -> Option<u8> {
    if at < 0 || at + 2 > bytes.len() {
        None
    } else if bytes[at] == 0x2b {
        hex_value(bytes[at + 1])
    } else {
        match (hex_value(bytes[at]), hex_value(bytes[at + 1])) {
            (Some(high), Some(low)) => Some((16 * high + low) as u8),
            _ => None,
        }
    }
}

/// The bytes that remain when every leading `#` is taken away.
pub open spec fn without_hashes(bytes: Seq<u8>) -> Seq<u8>
    decreases bytes.len(),
{
    if bytes.len() > 0 && bytes[0] == 0x23 {
        without_hashes(bytes.skip(1))
    } else {
        bytes
    }
}

/// A component, or its default where the text gives none.
pub open spec fn component_or(found: Option<u8>, default: u8) -> u8 {
    match found {
        Some(v) => v,
        None => default,
    }
}

/// The color that the UTF-8 bytes of a text write: after any leading `#`,
/// bytes 0 and 1 give red, 2 and 3 green, 4 and 5 blue. A component that is
/// missing or is no hexadecimal number takes its default.
pub open spec fn rgb_of_bytes(bytes: Seq<u8>) -> (u8, u8, u8) {
    let body = without_hashes(bytes);
    (
        component_or(hex_pair(body, 0), DEFAULT_RED),
        component_or(hex_pair(body, 2), DEFAULT_GREEN),
        component_or(hex_pair(body, 4), DEFAULT_BLUE),
    )
}

/// The color that a text writes.
pub open spec fn rgb_of(color: Seq<char>) -> (u8, u8, u8) {
    rgb_of_bytes(encode_utf8(color))
}

fn hex_digit(b: u8) -> (v: Option<u8>)
    ensures
        v == hex_value(b),
        v matches Some(d) ==> d < 16,
{
    if 0x30 <= b && b <= 0x39 {
        Some(b - 0x30)
    } else if 0x61 <= b && b <= 0x66 {
        Some(b - 0x61 + 10)
    } else if 0x41 <= b && b <= 0x46 {
        Some(b - 0x41 + 10)
    } else {
        None
    }
}

fn component(bytes: &[u8], start: usize, at: usize, default: u8) -> (v: u8)
    requires
        start <= bytes@.len(),
        at <= 4,
    ensures
        v == component_or(hex_pair(bytes@.skip(start as int), at as int), default),
{
    let ghost body = bytes@.skip(start as int);
    if bytes.len() - start < at + 2 {
        return default;
    }
    let first: u8 = bytes[start + at];
    let second: u8 = bytes[start + at + 1];
    assert(body[at as int] == first && body[at + 1] == second);
    let low = hex_digit(second);
    if first == 0x2b {
        match low {
            Some(l) => l,
            None => default,
        }
    } else {
        match (hex_digit(first), low) {
            (Some(h), Some(l)) => 16 * h + l,
            _ => default,
        }
    }
}

/// Reads a hex color such as `#63c8ff` into its red, green and blue
/// components. Leading `#` signs are skipped; a component whose two bytes are
/// missing or are no hexadecimal number takes its default (99, 200 or 255).
pub fn hex_to_rgb(hex: &str) -> (rgb: (u8, u8, u8))
    ensures
        rgb == rgb_of(hex@),
{
    let bytes = hex.as_bytes();
    let mut start: usize = 0;
    assert(bytes@.skip(0) == bytes@);
    while start < bytes.len() && bytes[start] == 0x23
        invariant
            start <= bytes@.len(),
            without_hashes(bytes@) == without_hashes(bytes@.skip(start as int)),
        decreases bytes@.len() - start,
    {
        assert(bytes@.skip(start as int).skip(1) == bytes@.skip(start + 1));
        start = start + 1;
    }
    assert(without_hashes(bytes@) == bytes@.skip(start as int));
    let r = component(bytes, start, 0, DEFAULT_RED);
    let g = component(bytes, start, 2, DEFAULT_GREEN);
    let b = component(bytes, start, 4, DEFAULT_BLUE);
    (r, g, b)
}

} // verus!
