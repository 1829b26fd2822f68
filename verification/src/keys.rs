//! Key derivation: the public key of a private key, and the two SEC1 forms of
//! a public key.

use crate::codec::{same_bytes, PrivateKey, PublicKeyCompressed, PublicKeyUncompressed};
use crate::curve::{
    base_multiple, is_public_key, mul_base, parse_compressed, sec1_uncompressed,
    uncompressed_key,
};
use crate::error::StealthError;
use crate::scalar::{is_private_key, is_valid_private_key};
use vstd::prelude::*;

verus! {

/// The compressed form that belongs to an uncompressed key: the parity of the
/// y-coordinate, as 2 or 3, before the x-coordinate.
pub open spec fn compressed_form(full: Seq<u8>) -> Seq<u8> {
    seq![(2 + full[64] % 2) as u8] + full.subrange(1, 33)
}

/// Whether `full` is an uncompressed public key: the byte 4, then the two
/// coordinates of a point of the curve.
pub open spec fn is_uncompressed_key(full: Seq<u8>) -> bool {
    &&& full.len() == 65
    &&& full[0] == 4
    &&& sec1_uncompressed(compressed_form(full)) == Some(full)
}

/// What [`public_from_private`] returns for the private key `key`.
pub open spec fn public_key_of(key: Seq<u8>) -> Result<Seq<u8>, StealthError> {
    if is_private_key(key) && is_public_key(base_multiple(key)) {
        Ok(uncompressed_key(base_multiple(key)))
    } else {
        Err(StealthError::InvalidScalar)
    }
}

/// Whether `key` is a compressed public key.
pub fn is_valid_public_key(key: &PublicKeyCompressed) -> (r: bool)
    ensures
        r == is_public_key(key@),
{
    (key[0] == 2 || key[0] == 3) && parse_compressed(key).is_some()
}

/// The uncompressed form of a compressed public key.
///
/// Bytes that are no public key are refused with `InvalidPoint`. What comes
/// back compresses to `key` again.
pub fn decompress(key: &PublicKeyCompressed) -> (r: Result<PublicKeyUncompressed, StealthError>)
    ensures
        match r {
            Ok(full) => {
                &&& is_public_key(key@)
                &&& full@ == uncompressed_key(key@)
                &&& is_uncompressed_key(full@)
                &&& compressed_form(full@) == key@
            },
            Err(e) => !is_public_key(key@) && e == StealthError::InvalidPoint,
        },
{
    if key[0] != 2 && key[0] != 3 {
        return Err(StealthError::InvalidPoint);
    }
    match parse_compressed(key) {
        Some(full) => {
            proof {
                let again = compressed_form(full@);
                assert(again[0] == key@[0]);
                assert forall|j: int| 1 <= j < 33 implies again[j] == key@[j] by {
                    assert(again[j] == full@.subrange(1, 33)[j - 1]);
                    assert(key@[j] == key@.subrange(1, 33)[j - 1]);
                }
                assert(again =~= key@);
            }
            Ok(full)
        },
        None => Err(StealthError::InvalidPoint),
    }
}

/// The compressed form of an uncompressed public key.
///
/// Bytes that are no public key are refused with `InvalidPoint`. What comes
/// back decompresses to `full` again.
pub fn compress(full: &PublicKeyUncompressed) -> (r: Result<PublicKeyCompressed, StealthError>)
    ensures
        match r {
            Ok(key) => {
                &&& is_uncompressed_key(full@)
                &&& key@ == compressed_form(full@)
                &&& is_public_key(key@)
                &&& uncompressed_key(key@) == full@
            },
            Err(e) => !is_uncompressed_key(full@) && e == StealthError::InvalidPoint,
        },
{
    if full[0] != 4 {
        return Err(StealthError::InvalidPoint);
    }
    let mut key: [u8; 33] = [0u8; 33];
    key[0] = 2 + full[64] % 2;
    let mut i: usize = 1;
    while i < 33
        invariant
            1 <= i <= 33,
            key@[0] == 2 + full@[64] % 2,
            forall|j: int| 1 <= j < i ==> key@[j] == full@[j],
        decreases 33 - i,
    {
        key[i] = full[i];
        i += 1;
    }
    assert(key@ =~= compressed_form(full@));
    match parse_compressed(&key) {
        Some(back) => {
            if same_bytes(&back, full) {
                Ok(key)
            } else {
                Err(StealthError::InvalidPoint)
            }
        },
        None => Err(StealthError::InvalidPoint),
    }
}

/// The compressed public key of a private key: the base point multiplied by it.
///
/// A key that is zero or reaches the group order is refused with
/// `InvalidScalar`, and so is one whose multiple of the base point does not
/// come back as a public key.
pub fn compressed_public_key(key: &PrivateKey) -> (r: Result<PublicKeyCompressed, StealthError>)
    ensures
        match r {
            Ok(public) => public_key_of(key@) is Ok && public@ == base_multiple(key@),
            Err(e) => public_key_of(key@) is Err && e == StealthError::InvalidScalar,
        },
{
    if !is_valid_private_key(key) {
        return Err(StealthError::InvalidScalar);
    }
    let public: [u8; 33] = mul_base(key);
    if is_valid_public_key(&public) {
        Ok(public)
    } else {
        Err(StealthError::InvalidScalar)
    }
}

/// The public key of a private key, uncompressed.
///
/// A key that is zero or reaches the group order is refused with
/// `InvalidScalar`, and so is one whose multiple of the base point does not
/// come back as a public key.
pub fn public_from_private(key: &PrivateKey) -> (r: Result<PublicKeyUncompressed, StealthError>)
    ensures
        match r {
            Ok(full) => public_key_of(key@) == Ok::<Seq<u8>, StealthError>(full@),
            Err(e) => public_key_of(key@) == Err::<Seq<u8>, StealthError>(e),
        },
{
    match compressed_public_key(key) {
        Ok(public) => match decompress(&public) {
            Ok(full) => Ok(full),
            Err(_) => Err(StealthError::InvalidScalar),
        },
        Err(e) => Err(e),
    }
}

/// Decompressing undoes compressing: the compressed form of an uncompressed
/// public key is a public key, and its uncompressed form is the key that was
/// compressed.
pub proof fn lemma_compressed_form_decompresses(full: Seq<u8>)
    requires
        is_uncompressed_key(full),
    ensures
        is_public_key(compressed_form(full)),
        uncompressed_key(compressed_form(full)) == full,
{
}

} // verus!
