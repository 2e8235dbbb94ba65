//! Random bytes from the operating system.

use vstd::prelude::*;

verus! {

/// The getrandom crate's error: the operating system gave no random bytes.
#[verifier::external_type_specification]
#[verifier::external_body]
pub struct ExRandomError(getrandom::Error);

/// `getrandom::getrandom`: `N` bytes from the operating system's random source.
/// Nothing is known of the bytes, nor of when the source is unavailable.
#[verifier::external_body]
pub(crate) fn random_bytes<const N: usize>() -> (r: Result<[u8; N], getrandom::Error>) {
    let mut bytes = [0u8; N];
    getrandom::getrandom(&mut bytes).map(|_| bytes)
}

} // verus!
