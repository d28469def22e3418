//! Random bytes from the operating system.

use vstd::prelude::*;

verus! {

/// Fills `buf` with random bytes from the operating system
/// (`getrandom::getrandom`), or gives the display text of its error. The
/// length is kept; the bytes are random, so nothing else is promised.
#[verifier::external_body]
pub(crate) fn fill_random(buf: &mut Vec<u8>) -> (r: Result<(), String>)
    ensures
        final(buf)@.len() == old(buf)@.len(),
{
    match getrandom::getrandom(buf.as_mut_slice()) {
        Ok(()) => Ok(()),
        Err(e) => Err(e.to_string()),
    }
}

} // verus!
