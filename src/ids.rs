//! Game ids: the Blake2 digest of the SCALE encoding of a player and a tick.
use vstd::prelude::*;
use vstd::arithmetic::power::pow;
use parity_scale_codec::Encode;

use crate::board::GameId;

verus! {

/// The eight little-endian bytes of `x`.
pub open spec fn le_bytes(x: u64) -> Seq<u8> {
    Seq::new(8, |i: int| ((x as int / pow(256, i as nat)) % 256) as u8)
}

/// The 32-byte Blake2b digest of `data`.
pub uninterp spec fn blake2_256_of(data: Seq<u8>) -> Seq<u8>;

/// Id of the game that `player` opens at tick `now`.
pub open spec fn game_id_of(player: u64, now: u64) -> Seq<u8> {
    blake2_256_of(le_bytes(player) + le_bytes(now))
}

/// Relies on parity_scale_codec's `Encode` for a pair of `u64`: a tuple encodes as the
/// concatenation of its fields, and a fixed-width integer as its little-endian bytes.
#[verifier::external_body]
fn encode_pair(a: u64, b: u64) -> (r: Vec<u8>)
    ensures
        r@ == le_bytes(a) + le_bytes(b),
{
    (a, b).encode()
}

/// Relies on sp_core's `Blake2Hasher::hash`: the 256-bit Blake2b digest of `data`, a function
/// of the bytes alone.
#[verifier::external_body]
fn blake2_256(data: &Vec<u8>) -> (r: GameId)
    ensures
        r@ == blake2_256_of(data@),
{
    <sp_core::Blake2Hasher as sp_core::Hasher>::hash(data.as_slice()).0
}

/// Id of the game that `player` opens at tick `now`.
pub fn new_game_id(player: u64, now: u64) -> (r: GameId)
    ensures
        r@ == game_id_of(player, now),
{
    let encoded = encode_pair(player, now);
    blake2_256(&encoded)
}

} // verus!
