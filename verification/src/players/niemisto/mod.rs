//! The decisions of a tank steered from a server: the connection itself is the
//! application's, which reads the server's reply and hands it here.
use vstd::prelude::*;

use super::player::{Action, Rotation};

verus! {

/// The last byte of a reply that is not zero, if any.
pub open spec fn last_nonzero(bytes: Seq<u8>) -> Option<u8>
    decreases bytes.len(),
{
    if bytes.len() == 0 {
        None
    } else if bytes.last() != 0 {
        Some(bytes.last())
    } else {
        last_nonzero(bytes.drop_last())
    }
}

/// The character a reply ends with: its last byte that is not zero, read as a character,
/// or the nul character when there is none.
pub fn last_character(bytes: &[u8]) -> (r: char)
    ensures
        r == match last_nonzero(bytes@) {
            Some(b) => b as char,
            None => '\0',
        },
{
    let mut i: usize = bytes.len();
    proof {
        assert(bytes@.subrange(0, i as int) =~= bytes@);
    }
    while i > 0
        invariant
            i <= bytes@.len(),
            last_nonzero(bytes@) == last_nonzero(bytes@.subrange(0, i as int)),
        decreases i,
    {
        let b = bytes[i - 1];
        proof {
            let s = bytes@.subrange(0, i as int);
            assert(s.last() == b);
            assert(s.drop_last() =~= bytes@.subrange(0, i - 1));
        }
        if b != 0 {
            return b as char;
        }
        i = i - 1;
    }
    proof {
        assert(bytes@.subrange(0, 0) =~= Seq::<u8>::empty());
    }
    '\0'
}

/// One turn of the remotely steered tank: it fires unless it has just fired, in which case
/// it turns clockwise and clears the flag. The character received plays no part.
pub fn decide(just_fired: bool, received: char) -> (r: (Action, bool))
    ensures
        r == if just_fired {
            (Action::Rotate(Rotation::Clockwise), false)
        } else {
            (Action::Fire, just_fired)
        },
{
    if !just_fired {
        (Action::Fire, just_fired)
    } else {
        (Action::Rotate(Rotation::Clockwise), false)
    }
}

} // verus!
