//! Random numbers.
use vstd::prelude::*;

verus! {

/// `rand::random`: a random 64-bit number. Nothing is claimed of it.
#[verifier::external_body]
pub(crate) fn random_u64() -> u64 {
    rand::random()
}

} // verus!
