//! The one source of chance the machine has.

use vstd::prelude::*;

verus! {

/// Calls `rand::random::<u8>()`, which draws a byte from the generator of the
/// calling thread. The contract claims nothing of the byte: two calls may
/// differ, and callers are verified for every value.
#[verifier::external_body]
pub(crate) fn random_byte() -> (byte: u8) {
    rand::random::<u8>()
}

} // verus!
