//! Blinding randomness from the operating system.
use vstd::prelude::*;

verus! {

/// Relies on `rand_core::OsRng` through `RngCore::try_fill_bytes`: eight bytes from the
/// operating system's source, read as a little-endian integer, or `None` where that source
/// reports an error. Nothing is known of the value.
#[verifier::external_body]
pub(crate) fn os_random_u64() -> (r: Option<u64>) {
    let mut buf = [0u8; 8];
    match rand_core::RngCore::try_fill_bytes(&mut rand_core::OsRng, &mut buf) {
        Ok(()) => Some(u64::from_le_bytes(buf)),
        Err(_) => None,
    }
}

} // verus!
