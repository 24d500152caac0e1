//! The one source of randomness the library draws on.

use vstd::prelude::*;

verus! {

/// Relies on `rand::random`: a random 64-bit value.  Nothing is promised
/// of the result; every caller must be correct whatever comes back.
#[verifier::external_body]
pub(crate) fn random_u64() -> u64 {
    rand::random::<u64>()
}

} // verus!
