//! What holds of generation, recognition and recovery taken together.
//!
//! The curve's own laws are not known here: that the two parties of a key
//! agreement reach the same point, and that the public key of a sum of
//! private keys is the sum of their public keys. A law that rests on one of
//! them says so in its `requires`.

use crate::curve::{base_multiple, is_public_key, point_multiple, point_sum, uncompressed_key};
use crate::error::StealthError;
use crate::keys::public_key_of;
use crate::meta::{decoded_meta, spending_half, viewing_half};
use crate::scalar::is_private_key;
use crate::stealth::{
    address_of_key, generation, recognition, recovery, secret_scalar, shared_secret_hash,
    stealth_key_of,
};
use crate::text::{decoded_text, fixed_from_text};
use vstd::prelude::*;

verus! {

/// Recognition follows generation: a stealth address built on a meta-address
/// is recognised with the viewing key and the spending public key of that
/// meta-address, together with the ephemeral public key and the view tag that
/// generation returned, where the viewing key and the ephemeral key agree on
/// their shared point.
pub proof fn lemma_generated_address_is_recognised_where_keys_agree(
    meta: Seq<u8>,
    ephemeral: Seq<u8>,
    viewing_key: Seq<u8>,
    generated: (Seq<u8>, Seq<u8>, u8),
)
    requires
        generation(meta, ephemeral) == Ok::<(Seq<u8>, Seq<u8>, u8), StealthError>(generated),
        is_private_key(viewing_key),
        viewing_half(meta) == base_multiple(viewing_key),
        point_multiple(base_multiple(viewing_key), ephemeral) == point_multiple(
            base_multiple(ephemeral),
            viewing_key,
        ),
    ensures
        recognition(generated.0, generated.1, viewing_key, spending_half(meta), generated.2)
            == Ok::<bool, StealthError>(true),
{
}

/// The view tag filters: an announcement whose view tag is not the first byte
/// of the shared secret's digest is not recognised, whatever the address.
pub proof fn lemma_wrong_view_tag_is_rejected(
    address: Seq<u8>,
    ephemeral_pubkey: Seq<u8>,
    viewing_key: Seq<u8>,
    spending_pubkey: Seq<u8>,
    view_tag: u8,
)
    requires
        shared_secret_hash(ephemeral_pubkey, viewing_key)[0] != view_tag,
    ensures
        recognition(address, ephemeral_pubkey, viewing_key, spending_pubkey, view_tag) != Ok::<
            bool,
            StealthError,
        >(true),
{
}

/// The view tag is no proof of ownership: where it agrees, an address other
/// than that of the stealth public key is still not recognised.
pub proof fn lemma_wrong_address_is_rejected(
    address: Seq<u8>,
    ephemeral_pubkey: Seq<u8>,
    viewing_key: Seq<u8>,
    spending_pubkey: Seq<u8>,
    view_tag: u8,
)
    requires
        stealth_key_of(spending_pubkey, shared_secret_hash(ephemeral_pubkey, viewing_key))
            matches Some(stealth) && address_of_key(stealth) != address,
    ensures
        recognition(address, ephemeral_pubkey, viewing_key, spending_pubkey, view_tag) != Ok::<
            bool,
            StealthError,
        >(true),
{
}

/// A recognised address is the address of the stealth public key: the
/// spending public key plus the base point multiplied by the secret scalar.
pub proof fn lemma_recognised_address_is_derived(
    address: Seq<u8>,
    ephemeral_pubkey: Seq<u8>,
    viewing_key: Seq<u8>,
    spending_pubkey: Seq<u8>,
    view_tag: u8,
)
    requires
        recognition(address, ephemeral_pubkey, viewing_key, spending_pubkey, view_tag) == Ok::<
            bool,
            StealthError,
        >(true),
    ensures
        ({
            let secret = secret_scalar(shared_secret_hash(ephemeral_pubkey, viewing_key));
            let stealth = point_sum(spending_pubkey, base_multiple(secret));
            &&& is_public_key(stealth)
            &&& address_of_key(stealth) == address
        }),
{
}

/// The recovered key controls a recognised address: its public key is the
/// stealth public key, and the address of that key is the recognised one,
/// where the recovered key is a private key and its multiple of the base
/// point is the sum of the spending public key and the secret scalar's
/// multiple.
pub proof fn lemma_recovered_key_controls_address_where_keys_add_up(
    address: Seq<u8>,
    ephemeral_pubkey: Seq<u8>,
    viewing_key: Seq<u8>,
    spending_key: Seq<u8>,
    view_tag: u8,
    recovered: Seq<u8>,
)
    requires
        recognition(
            address,
            ephemeral_pubkey,
            viewing_key,
            base_multiple(spending_key),
            view_tag,
        ) == Ok::<bool, StealthError>(true),
        recovery(ephemeral_pubkey, viewing_key, spending_key) == Ok::<Seq<u8>, StealthError>(
            recovered,
        ),
        is_private_key(recovered),
        base_multiple(recovered) == point_sum(
            base_multiple(spending_key),
            base_multiple(secret_scalar(shared_secret_hash(ephemeral_pubkey, viewing_key))),
        ),
    ensures
        public_key_of(recovered) == Ok::<Seq<u8>, StealthError>(
            uncompressed_key(
                point_sum(
                    base_multiple(spending_key),
                    base_multiple(
                        secret_scalar(shared_secret_hash(ephemeral_pubkey, viewing_key)),
                    ),
                ),
            ),
        ),
        address_of_key(base_multiple(recovered)) == address,
{
}

/// Recognition is a function of its inputs: two outcomes for the same
/// address, keys and view tag are one outcome.
pub proof fn lemma_recognition_is_deterministic(
    first: Result<bool, StealthError>,
    second: Result<bool, StealthError>,
    address: Seq<u8>,
    ephemeral_pubkey: Seq<u8>,
    viewing_key: Seq<u8>,
    spending_pubkey: Seq<u8>,
    view_tag: u8,
)
    requires
        first == recognition(address, ephemeral_pubkey, viewing_key, spending_pubkey, view_tag),
        second == recognition(address, ephemeral_pubkey, viewing_key, spending_pubkey, view_tag),
    ensures
        first == second,
{
}

/// Recovery is a function of its inputs, and the address is none of them:
/// two outcomes for the same keys are one outcome.
pub proof fn lemma_recovery_is_deterministic(
    first: Result<Seq<u8>, StealthError>,
    second: Result<Seq<u8>, StealthError>,
    ephemeral_pubkey: Seq<u8>,
    viewing_key: Seq<u8>,
    spending_key: Seq<u8>,
)
    requires
        first == recovery(ephemeral_pubkey, viewing_key, spending_key),
        second == recovery(ephemeral_pubkey, viewing_key, spending_key),
    ensures
        first == second,
{
}

/// A buffer of any length but 66 is no meta-address, and is refused for its
/// length: nothing of it is decoded.
pub proof fn lemma_wrong_length_is_rejected(meta: Seq<u8>)
    requires
        meta.len() != 66,
    ensures
        decoded_meta(meta) == Err::<(Seq<u8>, Seq<u8>), StealthError>(
            StealthError::InvalidLength,
        ),
{
}

/// A text that spells any number of bytes but 66 is refused for its length
/// where a meta-address is read.
pub proof fn lemma_wrong_length_text_is_rejected(text: Seq<char>)
    requires
        decoded_text(text) matches Ok(bytes) && bytes.len() != 66,
    ensures
        fixed_from_text(text, 66) == Err::<Seq<u8>, StealthError>(StealthError::InvalidLength),
{
}

} // verus!
