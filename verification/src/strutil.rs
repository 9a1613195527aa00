//! Small helpers around the standard library's strings and characters.

use vstd::prelude::*;

verus! {

/// Relies on String::push: appends exactly the given character.
#[verifier::external_body]
pub fn push_char(s: &mut String, c: char)
    ensures
        final(s)@ == old(s)@.push(c),
{
    s.push(c);
}

/// Relies on char::from_u32: converts a code point to a character exactly
/// when it is a Unicode scalar value (not a surrogate, at most 0x10FFFF),
/// and the character converts back to the same code point.
pub assume_specification[ char::from_u32 ](v: u32) -> (r: Option<char>)
    ensures
        r is Some <==> vstd::utf8::is_scalar(v),
        r matches Some(c) ==> c as u32 == v && c == v as char,
;

} // verus!
