//! The source of random bytes for the Cxkk instruction.
use vstd::prelude::*;

verus! {

/// A byte from `rand::random::<u8>()`, which draws it from the thread-local
/// generator. Nothing is promised of the value: any byte may come back. The
/// call panics only if the operating system cannot seed the generator, which
/// no precondition can rule out.
#[verifier::external_body]
pub(crate) fn random_byte() -> u8 {
    rand::random::<u8>()
}

} // verus!
