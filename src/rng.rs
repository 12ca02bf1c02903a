//! The one source of chance in the machine.
use vstd::prelude::*;

verus! {

/// Relies on macroquad::rand::rand (quad-rand's global generator) for a
/// pseudo-random `u32`; its low byte is the byte handed out. Nothing is
/// promised of the value.
#[verifier::external_body]
pub(crate) fn random_byte() -> (r: u8) {
    macroquad::rand::rand() as u8
}

} // verus!
