//! The group of secp256k1 and the Keccak-256 hash, as far as stealth addresses
//! need them. Points cross this boundary in their compressed SEC1 form and
//! scalars as 32 big-endian bytes; what the curve and the hash compute is
//! named here and not proved.

use crate::scalar::{be_value, group_order};
use eth_stealth_addresses::{
    decode_priv, decode_pubkey, encode_priv, encode_pubkey, get_pubkey_from_priv,
};
use k256::elliptic_curve::sec1::ToEncodedPoint;
use sha3::Digest;
use vstd::prelude::*;

verus! {

/// The uncompressed SEC1 form (the byte 4, then x, then y: 65 bytes) of the
/// point that `encoded` spells in SEC1 form; `None` where `encoded` spells no
/// point of the curve, or the point at infinity.
pub uninterp spec fn sec1_uncompressed(encoded: Seq<u8>) -> Option<Seq<u8>>;

/// The compressed form of the base point multiplied by `scalar`.
pub uninterp spec fn base_multiple(scalar: Seq<u8>) -> Seq<u8>;

/// The compressed form of the point `point` multiplied by `scalar`.
pub uninterp spec fn point_multiple(point: Seq<u8>, scalar: Seq<u8>) -> Seq<u8>;

/// The compressed form of the sum of the points `a` and `b`.
pub uninterp spec fn point_sum(a: Seq<u8>, b: Seq<u8>) -> Seq<u8>;

/// The Keccak-256 digest of `data`.
pub uninterp spec fn keccak256(data: Seq<u8>) -> Seq<u8>;

/// Whether `key` is a compressed public key: a parity byte, 2 or 3, and the
/// x-coordinate of a point of the curve.
pub open spec fn is_public_key(key: Seq<u8>) -> bool {
    &&& key.len() == 33
    &&& (key[0] == 2 || key[0] == 3)
    &&& sec1_uncompressed(key) is Some
}

/// The uncompressed form of the compressed public key `key`.
pub open spec fn uncompressed_key(key: Seq<u8>) -> Seq<u8>
    recommends
        is_public_key(key),
{
    sec1_uncompressed(key)->Some_0
}

/// Parses a compressed point with `k256::PublicKey::from_sec1_bytes` and writes
/// the key out again uncompressed with `to_encoded_point(false)`.
///
/// Trusted: the outcome is what [`sec1_uncompressed`] names. Of a point given
/// with parity byte 2 or 3 the uncompressed form starts with 4, repeats the
/// x-coordinate, and ends in a y-coordinate of the parity that was asked for:
/// that is the SEC1 encoding, which both functions follow.
#[verifier::external_body]
pub(crate) fn parse_compressed(encoded: &[u8; 33]) -> (r: Option<[u8; 65]>)
    ensures
        match r {
            Some(full) => sec1_uncompressed(encoded@) == Some(full@),
            None => sec1_uncompressed(encoded@) is None,
        },
        r is Some && (encoded@[0] == 2 || encoded@[0] == 3) ==> {
            &&& r->Some_0@[0] == 4
            &&& r->Some_0@.subrange(1, 33) == encoded@.subrange(1, 33)
            &&& r->Some_0@[64] % 2 == encoded@[0] % 2
        },
{
    match k256::PublicKey::from_sec1_bytes(encoded) {
        Ok(key) => <[u8; 65]>::try_from(key.to_encoded_point(false).as_bytes()).ok(),
        Err(_) => None,
    }
}

/// Multiplies the base point by a scalar: `decode_priv`,
/// `get_pubkey_from_priv` and `encode_pubkey` of `eth_stealth_addresses`.
///
/// Trusted: the result is what [`base_multiple`] names. `decode_priv` panics on
/// a value that reaches the group order, which `requires` leaves out.
#[verifier::external_body]
pub(crate) fn mul_base(scalar: &[u8; 32]) -> (r: [u8; 33])
    requires
        be_value(scalar@) < group_order(),
    ensures
        r@ == base_multiple(scalar@),
{
    encode_pubkey(get_pubkey_from_priv(decode_priv(scalar)))
}

/// Multiplies a point by a scalar with k256's `*`, between `decode_pubkey`,
/// `decode_priv` and `encode_pubkey` of `eth_stealth_addresses`.
///
/// Trusted: the result is what [`point_multiple`] names. `decode_pubkey`
/// reads a point with the SEC1 decoder that [`parse_compressed`] reads it
/// with, and panics where that decoder finds no point; `decode_priv` panics on
/// a value that reaches the group order. `requires` leaves both out.
#[verifier::external_body]
pub(crate) fn mul_point(point: &[u8; 33], scalar: &[u8; 32]) -> (r: [u8; 33])
    requires
        is_public_key(point@),
        be_value(scalar@) < group_order(),
    ensures
        r@ == point_multiple(point@, scalar@),
{
    encode_pubkey(decode_pubkey(point) * decode_priv(scalar))
}

/// Adds two points with k256's `+`, between `decode_pubkey` and
/// `encode_pubkey` of `eth_stealth_addresses`.
///
/// Trusted: the result is what [`point_sum`] names. `decode_pubkey` reads a
/// point with the SEC1 decoder that [`parse_compressed`] reads it with, and
/// panics where that decoder finds no point, which `requires` leaves out.
#[verifier::external_body]
pub(crate) fn add_points(a: &[u8; 33], b: &[u8; 33]) -> (r: [u8; 33])
    requires
        is_public_key(a@),
        is_public_key(b@),
    ensures
        r@ == point_sum(a@, b@),
{
    encode_pubkey(decode_pubkey(a) + decode_pubkey(b))
}

/// Hashes with `sha3::Keccak256::digest`.
///
/// Trusted: the result is what [`keccak256`] names.
#[verifier::external_body]
pub(crate) fn hash_keccak256(data: &[u8]) -> (r: [u8; 32])
    ensures
        r@ == keccak256(data@),
{
    sha3::Keccak256::digest(data).into()
}

/// Draws a scalar with `k256::Scalar::generate_biased` from `rand::thread_rng`
/// and writes it out with `encode_priv` of `eth_stealth_addresses`.
///
/// Trusted: nothing is claimed of the bytes that come back.
#[verifier::external_body]
pub(crate) fn sample_scalar() -> (r: [u8; 32]) {
    encode_priv(k256::Scalar::generate_biased(&mut rand::thread_rng()))
}

} // verus!
