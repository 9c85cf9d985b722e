//! The source of random bytes.
use vstd::prelude::*;

verus! {

/// A uniformly random byte from `rand::random`, drawn from the thread-local
/// generator. Nothing is promised of the value: any byte can come back.
/// `rand::random` panics only if the operating system's entropy source fails
/// when the generator is first seeded, which no argument can rule out.
#[verifier::external_body]
pub(crate) fn random_byte() -> (r: u8) {
    rand::random::<u8>()
}

} // verus!
