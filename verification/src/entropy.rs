//! The injected entropy source: one uniformly random byte per spawn, drawn
//! from the system's random number source.

use vstd::prelude::*;

verus! {

#[verifier::external_type_specification]
#[verifier::external_body]
pub struct ExGetrandomError(getrandom::Error);

/// Relies on `getrandom::getrandom`: fills the buffer with bytes from the
/// system's preferred random number source, or reports an error on any
/// failure. Nothing is promised of the byte's value: it is random, and two
/// calls may differ.
#[verifier::external_body]
pub(crate) fn fetch_entropy_byte() -> Result<u8, getrandom::Error> {
    let mut buf: [u8; 1] = [0; 1];
    match getrandom::getrandom(&mut buf) {
        Ok(()) => Ok(buf[0]),
        Err(e) => Err(e),
    }
}

} // verus!
