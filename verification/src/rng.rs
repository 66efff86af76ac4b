use vstd::prelude::*;

verus! {

use rand::Rng;

/// Relies on rand::thread_rng and rand::Rng::gen::<u8>: one byte from the
/// thread-local generator, uniformly distributed over 0-255 and reseeded
/// per process. Nothing is promised of the value: callers must hold for
/// every byte that could come back.
#[verifier::external_body]
pub(crate) fn random_byte() -> u8 {
    rand::thread_rng().gen()
}

} // verus!
