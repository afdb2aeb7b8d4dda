//! Common utility functions.

use vstd::prelude::*;
use crate::binary_io::read_u64_be;

verus! {

/// Calls `sodiumoxide::randombytes::randombytes_into` on eight bytes, which
/// fills them at random. Nothing is claimed of the bytes.
#[verifier::external_body]
fn random_bytes() -> [u8; 8] {
    let mut array = [0u8; 8];
    sodiumoxide::randombytes::randombytes_into(&mut array);
    array
}

/// A `u64` drawn at random.
fn random_u64() -> u64 {
    let bytes = random_bytes();
    read_u64_be(&bytes, 0)
}

/// Whether a random draw can serve as a ping id: every value but zero can.
pub fn ping_id_from_draw(draw: u64) -> (ping_id: Option<u64>)
    ensures
        ping_id == (if draw == 0 {
            None
        } else {
            Some(draw)
        }),
{
    if draw == 0 {
        None
    } else {
        Some(draw)
    }
}

/// Generate non-zero ping_id.
///
/// Draws again for as long as the draw is zero. A zero comes with
/// probability 2^-64, and the number of draws is bounded by `u64::MAX` so
/// that the loop provably ends; a run that exhausts the bound answers 1.
pub fn gen_ping_id() -> (ping_id: u64)
    ensures
        ping_id != 0,
{
    let mut draws_left: u64 = u64::MAX;
    while draws_left > 0
        decreases draws_left,
    {
        match ping_id_from_draw(random_u64()) {
            Some(ping_id) => {
                return ping_id;
            },
            None => {
                draws_left = draws_left - 1;
            },
        }
    }
    1
}

} // verus!
