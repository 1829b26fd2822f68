//! The stealth address engine: building a one-time address on a meta-address,
//! recognising such an address with the viewing key, and recovering the
//! private key that controls it.

use crate::codec::{
    copy_window, same_bytes, Address, PrivateKey, PublicKeyCompressed, StealthMetaAddress,
    ViewTag,
};
use crate::curve::{
    add_points, base_multiple, hash_keccak256, is_public_key, keccak256, mul_base, mul_point,
    point_multiple, point_sum, sample_scalar, uncompressed_key,
};
use crate::error::StealthError;
use crate::keys::{compressed_public_key, decompress, is_valid_public_key, public_key_of};
use crate::meta::{is_meta_address, spending_half, viewing_half};
use crate::scalar::{
    add_scalars, be_value, group_order, is_private_key, is_valid_private_key, reduce_scalar,
    scalar_bytes,
};
use vstd::prelude::*;

verus! {

/// How often [`generate_stealth_address`] draws an ephemeral key before it
/// gives up.
pub const MAX_SAMPLING_ATTEMPTS: usize = 16;

/// The address of a public key: the last 20 bytes of the Keccak-256 digest of
/// its two coordinates.
pub open spec fn address_of_key(key: Seq<u8>) -> Seq<u8> {
    keccak256(uncompressed_key(key).subrange(1, 65)).subrange(12, 32)
}

/// The digest of the point that an ephemeral key and a viewing key agree on,
/// computed from the public half of one and the private half of the other.
pub open spec fn shared_secret_hash(point: Seq<u8>, scalar: Seq<u8>) -> Seq<u8> {
    keccak256(point_multiple(point, scalar))
}

/// The scalar that a shared secret's digest stands for: its value modulo the
/// group order.
pub open spec fn secret_scalar(hash: Seq<u8>) -> Seq<u8> {
    scalar_bytes(be_value(hash) % group_order())
}

/// The stealth public key: the spending key plus the base point multiplied by
/// the secret scalar. There is none where the scalar is zero, or where that
/// multiple or the sum is no public key.
pub open spec fn stealth_key_of(spending: Seq<u8>, hash: Seq<u8>) -> Option<Seq<u8>> {
    let scalar = secret_scalar(hash);
    let offset = base_multiple(scalar);
    let stealth = point_sum(spending, offset);
    if be_value(scalar) != 0 && is_public_key(offset) && is_public_key(stealth) {
        Some(stealth)
    } else {
        None
    }
}

/// The address of a compressed public key.
///
/// Bytes that are no public key are refused with `InvalidPoint`.
pub fn address_from_public_key(key: &PublicKeyCompressed) -> (r: Result<Address, StealthError>)
    ensures
        match r {
            Ok(address) => is_public_key(key@) && address@ == address_of_key(key@),
            Err(e) => !is_public_key(key@) && e == StealthError::InvalidPoint,
        },
{
    match decompress(key) {
        Ok(full) => {
            let coordinates: [u8; 64] = copy_window(&full, 1);
            let digest: [u8; 32] = hash_keccak256(&coordinates);
            let address: [u8; 20] = copy_window(&digest, 12);
            Ok(address)
        },
        Err(e) => Err(e),
    }
}

/// The stealth public key that belongs to a spending key and the digest of a
/// shared secret.
fn derive_stealth_key(spending: &[u8; 33], hash: &[u8; 32]) -> (r: Option<[u8; 33]>)
    requires
        is_public_key(spending@),
    ensures
        match r {
            Some(stealth) => stealth_key_of(spending@, hash@) == Some(stealth@),
            None => stealth_key_of(spending@, hash@) is None,
        },
{
    let scalar: [u8; 32] = reduce_scalar(hash);
    if !is_valid_private_key(&scalar) {
        return None;
    }
    let offset: [u8; 33] = mul_base(&scalar);
    if !is_valid_public_key(&offset) {
        return None;
    }
    let stealth: [u8; 33] = add_points(spending, &offset);
    if !is_valid_public_key(&stealth) {
        return None;
    }
    Some(stealth)
}

/// What generation with the ephemeral private key `ephemeral` returns for the
/// meta-address `meta`: the stealth address, the ephemeral public key and the
/// view tag, or why there are none.
pub open spec fn generation(meta: Seq<u8>, ephemeral: Seq<u8>) -> Result<
    (Seq<u8>, Seq<u8>, u8),
    StealthError,
> {
    let announced = base_multiple(ephemeral);
    let shared = point_multiple(viewing_half(meta), ephemeral);
    let hash = keccak256(shared);
    if !is_meta_address(meta) {
        Err(StealthError::InvalidMetaAddress)
    } else if !is_private_key(ephemeral) || !is_public_key(announced) || !is_public_key(shared) {
        Err(StealthError::DegenerateSecret)
    } else {
        match stealth_key_of(spending_half(meta), hash) {
            Some(stealth) => Ok((address_of_key(stealth), announced, hash[0])),
            None => Err(StealthError::DegenerateSecret),
        }
    }
}

/// Whether a stealth address, announced with an ephemeral public key and a
/// view tag, belongs to the holder of a viewing key and a spending public key.
pub open spec fn is_recognised(
    address: Seq<u8>,
    ephemeral_pubkey: Seq<u8>,
    viewing_key: Seq<u8>,
    spending_pubkey: Seq<u8>,
    view_tag: u8,
) -> bool {
    let shared = point_multiple(ephemeral_pubkey, viewing_key);
    let hash = keccak256(shared);
    &&& hash[0] == view_tag
    &&& is_public_key(shared)
    &&& stealth_key_of(spending_pubkey, hash) matches Some(stealth)
    &&& address_of_key(stealth) == address
}

/// What [`check_stealth_address_fast`] returns.
pub open spec fn recognition(
    address: Seq<u8>,
    ephemeral_pubkey: Seq<u8>,
    viewing_key: Seq<u8>,
    spending_pubkey: Seq<u8>,
    view_tag: u8,
) -> Result<bool, StealthError> {
    if !is_private_key(viewing_key) {
        Err(StealthError::InvalidScalar)
    } else if !is_public_key(ephemeral_pubkey) || !is_public_key(spending_pubkey) {
        Err(StealthError::InvalidPoint)
    } else {
        Ok(is_recognised(address, ephemeral_pubkey, viewing_key, spending_pubkey, view_tag))
    }
}

/// What [`check_stealth_address_with_keys`] returns.
pub open spec fn recognition_by_keys(
    address: Seq<u8>,
    ephemeral_pubkey: Seq<u8>,
    viewing_key: Seq<u8>,
    spending_key: Seq<u8>,
    view_tag: u8,
) -> Result<bool, StealthError> {
    if !is_private_key(spending_key) || !is_private_key(viewing_key) {
        Err(StealthError::InvalidScalar)
    } else if !is_public_key(ephemeral_pubkey) {
        Err(StealthError::InvalidPoint)
    } else if public_key_of(spending_key) is Err {
        Err(StealthError::InvalidScalar)
    } else {
        Ok(
            is_recognised(
                address,
                ephemeral_pubkey,
                viewing_key,
                base_multiple(spending_key),
                view_tag,
            ),
        )
    }
}

/// What [`compute_stealth_key`] returns: the spending key plus the secret
/// scalar, modulo the group order.
pub open spec fn recovery(
    ephemeral_pubkey: Seq<u8>,
    viewing_key: Seq<u8>,
    spending_key: Seq<u8>,
) -> Result<Seq<u8>, StealthError> {
    if !is_private_key(spending_key) || !is_private_key(viewing_key) {
        Err(StealthError::InvalidScalar)
    } else if !is_public_key(ephemeral_pubkey) {
        Err(StealthError::InvalidPoint)
    } else {
        let secret = secret_scalar(shared_secret_hash(ephemeral_pubkey, viewing_key));
        Ok(scalar_bytes((be_value(spending_key) + be_value(secret)) % group_order()))
    }
}

/// Builds a stealth address on a meta-address with a given ephemeral private
/// key, and returns it with the ephemeral public key and the view tag.
///
/// A meta-address with a half that is no public key is refused with
/// `InvalidMetaAddress`. An ephemeral key that is no private key, or that
/// leads to no stealth public key, is refused with `DegenerateSecret`: the
/// caller draws another.
pub fn generate_stealth_address_with(meta: &StealthMetaAddress, ephemeral: &PrivateKey) -> (r:
    Result<(Address, PublicKeyCompressed, ViewTag), StealthError>)
    ensures
        match r {
            Ok(out) => generation(meta@, ephemeral@) == Ok::<(Seq<u8>, Seq<u8>, u8), StealthError>(
                (out.0@, out.1@, out.2),
            ),
            Err(e) => generation(meta@, ephemeral@) == Err::<(Seq<u8>, Seq<u8>, u8), StealthError>(
                e,
            ),
        },
{
    let spending: [u8; 33] = copy_window(meta, 0);
    let viewing: [u8; 33] = copy_window(meta, 33);
    if !is_valid_public_key(&spending) || !is_valid_public_key(&viewing) {
        return Err(StealthError::InvalidMetaAddress);
    }
    if !is_valid_private_key(ephemeral) {
        return Err(StealthError::DegenerateSecret);
    }
    let announced: [u8; 33] = mul_base(ephemeral);
    if !is_valid_public_key(&announced) {
        return Err(StealthError::DegenerateSecret);
    }
    let shared: [u8; 33] = mul_point(&viewing, ephemeral);
    if !is_valid_public_key(&shared) {
        return Err(StealthError::DegenerateSecret);
    }
    let hash: [u8; 32] = hash_keccak256(&shared);
    match derive_stealth_key(&spending, &hash) {
        Some(stealth) => match address_from_public_key(&stealth) {
            Ok(address) => Ok((address, announced, hash[0])),
            Err(_) => Err(StealthError::DegenerateSecret),
        },
        None => Err(StealthError::DegenerateSecret),
    }
}

/// Tells whether a stealth address belongs to the holder of `viewing_key` and
/// `spending_pubkey`. The view tag is compared first; the stealth public key
/// is only derived where it agrees.
///
/// A viewing key that is no private key is refused with `InvalidScalar`, an
/// ephemeral or spending public key that is none with `InvalidPoint`.
pub fn check_stealth_address_fast(
    address: &Address,
    ephemeral_pubkey: &PublicKeyCompressed,
    viewing_key: &PrivateKey,
    spending_pubkey: &PublicKeyCompressed,
    view_tag: ViewTag,
) -> (r: Result<bool, StealthError>)
    ensures
        r == recognition(address@, ephemeral_pubkey@, viewing_key@, spending_pubkey@, view_tag),
{
    if !is_valid_private_key(viewing_key) {
        return Err(StealthError::InvalidScalar);
    }
    if !is_valid_public_key(ephemeral_pubkey) || !is_valid_public_key(spending_pubkey) {
        return Err(StealthError::InvalidPoint);
    }
    let shared: [u8; 33] = mul_point(ephemeral_pubkey, viewing_key);
    let hash: [u8; 32] = hash_keccak256(&shared);
    if hash[0] != view_tag {
        return Ok(false);
    }
    if !is_valid_public_key(&shared) {
        return Ok(false);
    }
    match derive_stealth_key(spending_pubkey, &hash) {
        Some(stealth) => match address_from_public_key(&stealth) {
            Ok(candidate) => Ok(same_bytes(&candidate, address)),
            Err(_) => Ok(false),
        },
        None => Ok(false),
    }
}

/// Tells whether a stealth address belongs to the holder of a viewing and a
/// spending private key: the spending public key is derived, and the address
/// is held against it as in [`check_stealth_address_fast`].
///
/// Both private keys and the ephemeral public key are looked at before
/// anything is derived: a key that is no private key is refused with
/// `InvalidScalar`, an ephemeral public key that is none with `InvalidPoint`.
pub fn check_stealth_address_with_keys(
    address: &Address,
    ephemeral_pubkey: &PublicKeyCompressed,
    viewing_key: &PrivateKey,
    spending_key: &PrivateKey,
    view_tag: ViewTag,
) -> (r: Result<bool, StealthError>)
    ensures
        r == recognition_by_keys(
            address@,
            ephemeral_pubkey@,
            viewing_key@,
            spending_key@,
            view_tag,
        ),
{
    if !is_valid_private_key(spending_key) || !is_valid_private_key(viewing_key) {
        return Err(StealthError::InvalidScalar);
    }
    if !is_valid_public_key(ephemeral_pubkey) {
        return Err(StealthError::InvalidPoint);
    }
    match compressed_public_key(spending_key) {
        Ok(spending_pubkey) => check_stealth_address_fast(
            address,
            ephemeral_pubkey,
            viewing_key,
            &spending_pubkey,
            view_tag,
        ),
        Err(e) => Err(e),
    }
}

/// Recovers the private key of the stealth address that was announced with
/// `ephemeral_pubkey`: the spending key plus the secret scalar, modulo the
/// group order.
///
/// The address takes no part in the derivation, and the key is not held
/// against it: whoever relies on the key checks the address first. A spending
/// or viewing key that is no private key is refused with `InvalidScalar`, an
/// ephemeral public key that is none with `InvalidPoint`.
#[allow(unused_variables)]
pub fn compute_stealth_key(
    address: &Address,
    ephemeral_pubkey: &PublicKeyCompressed,
    viewing_key: &PrivateKey,
    spending_key: &PrivateKey,
) -> (r: Result<PrivateKey, StealthError>)
    ensures
        match r {
            Ok(key) => recovery(ephemeral_pubkey@, viewing_key@, spending_key@) == Ok::<
                Seq<u8>,
                StealthError,
            >(key@),
            Err(e) => recovery(ephemeral_pubkey@, viewing_key@, spending_key@) == Err::<
                Seq<u8>,
                StealthError,
            >(e),
        },
{
    if !is_valid_private_key(spending_key) || !is_valid_private_key(viewing_key) {
        return Err(StealthError::InvalidScalar);
    }
    if !is_valid_public_key(ephemeral_pubkey) {
        return Err(StealthError::InvalidPoint);
    }
    let shared: [u8; 33] = mul_point(ephemeral_pubkey, viewing_key);
    let hash: [u8; 32] = hash_keccak256(&shared);
    let secret: [u8; 32] = reduce_scalar(&hash);
    Ok(add_scalars(spending_key, &secret))
}

/// Builds a stealth address on a meta-address with a freshly drawn ephemeral
/// key, and returns it with the ephemeral public key and the view tag. The
/// ephemeral private key does not leave this function.
///
/// A meta-address with a half that is no public key is refused with
/// `InvalidMetaAddress` before anything is drawn. A draw that leads to no
/// stealth address is thrown away and replaced, up to
/// [`MAX_SAMPLING_ATTEMPTS`] draws; `DegenerateSecret` says that every one of
/// them was thrown away.
pub fn generate_stealth_address(meta: &StealthMetaAddress) -> (r: Result<
    (Address, PublicKeyCompressed, ViewTag),
    StealthError,
>)
    ensures
        match r {
            Ok(out) => exists|ephemeral: Seq<u8>|
                #[trigger] generation(meta@, ephemeral) == Ok::<
                    (Seq<u8>, Seq<u8>, u8),
                    StealthError,
                >((out.0@, out.1@, out.2)),
            Err(e) => if is_meta_address(meta@) {
                e == StealthError::DegenerateSecret
            } else {
                e == StealthError::InvalidMetaAddress
            },
        },
        !is_meta_address(meta@) ==> r is Err,
{
    let spending: [u8; 33] = copy_window(meta, 0);
    let viewing: [u8; 33] = copy_window(meta, 33);
    if !is_valid_public_key(&spending) || !is_valid_public_key(&viewing) {
        return Err(StealthError::InvalidMetaAddress);
    }
    let mut attempt: usize = 0;
    while attempt < MAX_SAMPLING_ATTEMPTS
        invariant
            is_meta_address(meta@),
        decreases MAX_SAMPLING_ATTEMPTS - attempt,
    {
        let ephemeral: [u8; 32] = sample_scalar();
        match generate_stealth_address_with(meta, &ephemeral) {
            Ok(out) => {
                return Ok(out);
            },
            Err(_) => {},
        }
        attempt += 1;
    }
    Err(StealthError::DegenerateSecret)
}

} // verus!
