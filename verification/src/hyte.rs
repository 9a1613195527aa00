//! The 27-character alphabet for hytes (groups of three trits).
//!
//! A hyte is packed into six bits, two per trit, low trit first. Negative
//! values print as the lower-case letters 'a'..'m', positive values as the
//! upper-case letters 'A'..'M', and zero as '0'.

use vstd::prelude::*;

verus! {

use crate::ternary::Error;

/// The printable character of a packed hyte; unassigned patterns map to '?'.
pub open spec fn spec_char_from_hyte(h: u8) -> char {
    match h {
        0b11_11_11u8 => 'm',
        0b11_11_00u8 => 'l',
        0b11_11_01u8 => 'k',
        0b11_00_11u8 => 'j',
        0b11_00_00u8 => 'i',
        0b11_00_01u8 => 'h',
        0b11_01_11u8 => 'g',
        0b11_01_00u8 => 'f',
        0b11_01_01u8 => 'e',
        0b00_11_11u8 => 'd',
        0b00_11_00u8 => 'c',
        0b00_11_01u8 => 'b',
        0b00_00_11u8 => 'a',
        0b00_00_00u8 => '0',
        0b00_00_01u8 => 'A',
        0b00_01_11u8 => 'B',
        0b00_01_00u8 => 'C',
        0b00_01_01u8 => 'D',
        0b01_11_11u8 => 'E',
        0b01_11_00u8 => 'F',
        0b01_11_01u8 => 'G',
        0b01_00_11u8 => 'H',
        0b01_00_00u8 => 'I',
        0b01_00_01u8 => 'J',
        0b01_01_11u8 => 'K',
        0b01_01_00u8 => 'L',
        0b01_01_01u8 => 'M',
        _ => '?',
    }
}

/// The packed hyte named by a character, if the character belongs to the
/// alphabet.
pub open spec fn spec_hyte_from_char(c: char) -> Option<u8> {
    match c {
        'm' => Some(0b11_11_11u8),
        'l' => Some(0b11_11_00u8),
        'k' => Some(0b11_11_01u8),
        'j' => Some(0b11_00_11u8),
        'i' => Some(0b11_00_00u8),
        'h' => Some(0b11_00_01u8),
        'g' => Some(0b11_01_11u8),
        'f' => Some(0b11_01_00u8),
        'e' => Some(0b11_01_01u8),
        'd' => Some(0b00_11_11u8),
        'c' => Some(0b00_11_00u8),
        'b' => Some(0b00_11_01u8),
        'a' => Some(0b00_00_11u8),
        '0' => Some(0b00_00_00u8),
        'A' => Some(0b00_00_01u8),
        'B' => Some(0b00_01_11u8),
        'C' => Some(0b00_01_00u8),
        'D' => Some(0b00_01_01u8),
        'E' => Some(0b01_11_11u8),
        'F' => Some(0b01_11_00u8),
        'G' => Some(0b01_11_01u8),
        'H' => Some(0b01_00_11u8),
        'I' => Some(0b01_00_00u8),
        'J' => Some(0b01_00_01u8),
        'K' => Some(0b01_01_11u8),
        'L' => Some(0b01_01_00u8),
        'M' => Some(0b01_01_01u8),
        _ => None,
    }
}

/// A packed hyte is well formed when each of its three two-bit fields holds
/// a legal trit pattern.
pub open spec fn valid_hyte(h: u8) -> bool {
    &&& h < 64
    &&& h % 4 != 2
    &&& (h / 4) % 4 != 2
    &&& h / 16 != 2
}

/// The hyte named by a character.
pub fn try_hyte_from_char(c: char) -> (r: Result<u8, Error>)
    ensures
        match r {
            Ok(h) => spec_hyte_from_char(c) == Some(h) && valid_hyte(h),
            Err(e) => spec_hyte_from_char(c) is None && e == Error::InvalidCharacter(c),
        },
{
    match c {
        'm' => Ok(0b11_11_11),
        'l' => Ok(0b11_11_00),
        'k' => Ok(0b11_11_01),
        'j' => Ok(0b11_00_11),
        'i' => Ok(0b11_00_00),
        'h' => Ok(0b11_00_01),
        'g' => Ok(0b11_01_11),
        'f' => Ok(0b11_01_00),
        'e' => Ok(0b11_01_01),
        'd' => Ok(0b00_11_11),
        'c' => Ok(0b00_11_00),
        'b' => Ok(0b00_11_01),
        'a' => Ok(0b00_00_11),
        '0' => Ok(0b00_00_00),
        'A' => Ok(0b00_00_01),
        'B' => Ok(0b00_01_11),
        'C' => Ok(0b00_01_00),
        'D' => Ok(0b00_01_01),
        'E' => Ok(0b01_11_11),
        'F' => Ok(0b01_11_00),
        'G' => Ok(0b01_11_01),
        'H' => Ok(0b01_00_11),
        'I' => Ok(0b01_00_00),
        'J' => Ok(0b01_00_01),
        'K' => Ok(0b01_01_11),
        'L' => Ok(0b01_01_00),
        'M' => Ok(0b01_01_01),
        _ => Err(Error::InvalidCharacter(c)),
    }
}

/// The printable character of a packed hyte.
pub fn char_from_hyte(hyte: u8) -> (r: char)
    ensures
        r == spec_char_from_hyte(hyte),
{
    match hyte {
        0b11_11_11 => 'm',
        0b11_11_00 => 'l',
        0b11_11_01 => 'k',
        0b11_00_11 => 'j',
        0b11_00_00 => 'i',
        0b11_00_01 => 'h',
        0b11_01_11 => 'g',
        0b11_01_00 => 'f',
        0b11_01_01 => 'e',
        0b00_11_11 => 'd',
        0b00_11_00 => 'c',
        0b00_11_01 => 'b',
        0b00_00_11 => 'a',
        0b00_00_00 => '0',
        0b00_00_01 => 'A',
        0b00_01_11 => 'B',
        0b00_01_00 => 'C',
        0b00_01_01 => 'D',
        0b01_11_11 => 'E',
        0b01_11_00 => 'F',
        0b01_11_01 => 'G',
        0b01_00_11 => 'H',
        0b01_00_00 => 'I',
        0b01_00_01 => 'J',
        0b01_01_11 => 'K',
        0b01_01_00 => 'L',
        0b01_01_01 => 'M',
        _ => '?',
    }
}

/// A well-formed hyte prints as a character that names it back: the two maps
/// are mutually inverse on the 27-character alphabet.
pub proof fn lemma_hyte_char_round_trip(h: u8)
    requires
        valid_hyte(h),
    ensures
        spec_hyte_from_char(spec_char_from_hyte(h)) == Some(h),
{
}

} // verus!
