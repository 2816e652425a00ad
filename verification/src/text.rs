//! Building text one character at a time.
use vstd::prelude::*;

verus! {

/// Appends a character to a string.
///
/// Calls `String::push`, whose documentation says that it appends the character to the
/// end of the string; that is all this contract claims.
#[verifier::external_body]
pub fn push_char(s: &mut String, c: char)
    ensures
        final(s)@ == old(s)@.push(c),
{
    s.push(c);
}

} // verus!
