use vstd::prelude::*;
use crate::text::{DIGIT_0, DIGIT_9, LOWER_A, LOWER_F, UPPER_A, UPPER_F};

verus! {

/// The value of an ASCII hexadecimal digit, in either case.
pub open spec fn hex_digit_value(c: u8) -> Option<int> {
    if DIGIT_0 <= c <= DIGIT_9 {
        Some(c - DIGIT_0)
    } else if LOWER_A <= c <= LOWER_F {
        Some(c - LOWER_A + 10)
    } else if UPPER_A <= c <= UPPER_F {
        Some(c - UPPER_A + 10)
    } else {
        None
    }
}

/// Whether every byte of a text is a hexadecimal digit.
pub open spec fn all_hex_digits(text: Seq<u8>) -> bool {
    forall|i: int| 0 <= i < text.len() ==> (#[trigger] hex_digit_value(text[i])) is Some
}

/// The byte that two hexadecimal digits spell, the high one first.
pub open spec fn hex_pair_value(high: u8, low: u8) -> int {
    16 * hex_digit_value(high).unwrap() + hex_digit_value(low).unwrap()
}

/// The 32 bytes that a text spells in hexadecimal: the text has exactly 64
/// hexadecimal digits, and each pair of them spells one byte. `None` for
/// any other text.
pub open spec fn hex_to_32_bytes(text: Seq<u8>) -> Option<Seq<u8>> {
    if text.len() == 64 && all_hex_digits(text) {
        Some(Seq::new(32, |i: int| hex_pair_value(text[2 * i], text[2 * i + 1]) as u8))
    } else {
        None
    }
}

/// The value of a hexadecimal digit; `None` for any other byte.
pub fn hex_digit(c: u8) -> (value: Option<u8>)
    ensures
        match value {
            Some(v) => hex_digit_value(c) == Some(v as int) && v < 16,
            None => hex_digit_value(c) is None,
        },
{
    if DIGIT_0 <= c && c <= DIGIT_9 {
        Some(c - DIGIT_0)
    } else if LOWER_A <= c && c <= LOWER_F {
        Some(c - LOWER_A + 10)
    } else if UPPER_A <= c && c <= UPPER_F {
        Some(c - UPPER_A + 10)
    } else {
        None
    }
}

/// Reads 32 bytes written as 64 hexadecimal digits.
pub fn decode_hex_32(text: &[u8]) -> (bytes: Option<[u8; 32]>)
    ensures
        match bytes {
            Some(b) => hex_to_32_bytes(text@) == Some(b@),
            None => hex_to_32_bytes(text@) is None,
        },
{
    if text.len() != 64 {
        return None;
    }
    let mut out = [0u8; 32];
    let mut i: usize = 0;
    while i < 32
        invariant
            i <= 32,
            text.len() == 64,
            forall|j: int| 0 <= j < 2 * i ==> (#[trigger] hex_digit_value(text@[j])) is Some,
            forall|j: int|
                0 <= j < i ==> out@[j] == hex_pair_value(text@[2 * j], text@[2 * j + 1]) as u8,
        decreases 32 - i,
    {
        let high = match hex_digit(text[2 * i]) {
            Some(v) => v,
            None => {
                return None;
            },
        };
        let low = match hex_digit(text[2 * i + 1]) {
            Some(v) => v,
            None => {
                return None;
            },
        };
        out[i] = 16 * high + low;
        i += 1;
    }
    Some(out)
}

} // verus!
