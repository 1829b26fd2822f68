//! The stealth meta-address: a recipient's spending and viewing public keys,
//! compressed, in one blob of 66 bytes with the spending key first.

use crate::codec::{
    copy_window, decode_fixed, PrivateKey, PublicKeyCompressed, StealthMetaAddress,
};
use crate::curve::{base_multiple, is_public_key};
use crate::error::StealthError;
use crate::keys::{compressed_public_key, is_valid_public_key, public_key_of};
use vstd::prelude::*;

verus! {

/// The two public keys of a meta-address, each under the name of its role.
#[derive(Clone, Copy, Debug)]
pub struct MetaAddressKeys {
    /// The key that stealth public keys are built on.
    pub spending: PublicKeyCompressed,
    /// The key that shared secrets are agreed with.
    pub viewing: PublicKeyCompressed,
}

impl MetaAddressKeys {
    /// Whether both keys are public keys.
    pub open spec fn is_valid(self) -> bool {
        is_public_key(self.spending@) && is_public_key(self.viewing@)
    }
}

/// The half of a meta-address that holds the spending key.
pub open spec fn spending_half(meta: Seq<u8>) -> Seq<u8> {
    meta.subrange(0, 33)
}

/// The half of a meta-address that holds the viewing key.
pub open spec fn viewing_half(meta: Seq<u8>) -> Seq<u8> {
    meta.subrange(33, 66)
}

/// Whether `meta` is a meta-address: 66 bytes, each half a public key.
pub open spec fn is_meta_address(meta: Seq<u8>) -> bool {
    &&& meta.len() == 66
    &&& is_public_key(spending_half(meta))
    &&& is_public_key(viewing_half(meta))
}

/// What [`decode_meta_address`] returns for `meta`: the two halves, or why
/// there are none.
pub open spec fn decoded_meta(meta: Seq<u8>) -> Result<(Seq<u8>, Seq<u8>), StealthError> {
    if meta.len() != 66 {
        Err(StealthError::InvalidLength)
    } else if !is_meta_address(meta) {
        Err(StealthError::InvalidPoint)
    } else {
        Ok((spending_half(meta), viewing_half(meta)))
    }
}

/// What [`meta_address_of_private_keys`] returns: the meta-address of the two
/// public keys, or `InvalidScalar` where a private key has no public key.
pub open spec fn meta_of_private_keys(spending_key: Seq<u8>, viewing_key: Seq<u8>) -> Result<
    Seq<u8>,
    StealthError,
> {
    if public_key_of(spending_key) is Err || public_key_of(viewing_key) is Err {
        Err(StealthError::InvalidScalar)
    } else {
        Ok(base_multiple(spending_key) + base_multiple(viewing_key))
    }
}

/// Joins two compressed public keys into a meta-address, the spending key
/// first. The keys are taken as they are.
pub fn encode_meta_address(
    spending: &PublicKeyCompressed,
    viewing: &PublicKeyCompressed,
) -> (meta: StealthMetaAddress)
    ensures
        meta@ == spending@ + viewing@,
        spending_half(meta@) == spending@,
        viewing_half(meta@) == viewing@,
{
    let mut meta: [u8; 66] = [0u8; 66];
    let mut i: usize = 0;
    while i < 33
        invariant
            i <= 33,
            forall|j: int| 0 <= j < i ==> meta@[j] == spending@[j],
            forall|j: int| 0 <= j < i ==> meta@[33 + j] == viewing@[j],
        decreases 33 - i,
    {
        meta[i] = spending[i];
        meta[33 + i] = viewing[i];
        i += 1;
    }
    assert(meta@ =~= spending@ + viewing@);
    assert(spending_half(meta@) =~= spending@);
    assert(viewing_half(meta@) =~= viewing@);
    meta
}

/// Splits a meta-address into its two public keys.
///
/// A buffer that is not 66 bytes long is refused with `InvalidLength`, one
/// with a half that is no public key with `InvalidPoint`.
pub fn decode_meta_address(meta: &[u8]) -> (r: Result<MetaAddressKeys, StealthError>)
    ensures
        match r {
            Ok(keys) => keys.is_valid() && decoded_meta(meta@) == Ok::<
                (Seq<u8>, Seq<u8>),
                StealthError,
            >((keys.spending@, keys.viewing@)),
            Err(e) => decoded_meta(meta@) == Err::<(Seq<u8>, Seq<u8>), StealthError>(e),
        },
{
    let fixed: [u8; 66] = match decode_fixed::<66>(meta) {
        Ok(fixed) => fixed,
        Err(e) => { return Err(e); },
    };
    let spending: [u8; 33] = copy_window(&fixed, 0);
    let viewing: [u8; 33] = copy_window(&fixed, 33);
    if is_valid_public_key(&spending) && is_valid_public_key(&viewing) {
        Ok(MetaAddressKeys { spending, viewing })
    } else {
        Err(StealthError::InvalidPoint)
    }
}

/// The meta-address of a recipient's spending and viewing private keys.
///
/// A key that is zero or reaches the group order is refused with
/// `InvalidScalar`, and so is one whose multiple of the base point does not
/// come back as a public key. What comes back is a meta-address.
pub fn meta_address_of_private_keys(spending_key: &PrivateKey, viewing_key: &PrivateKey) -> (r:
    Result<StealthMetaAddress, StealthError>)
    ensures
        match r {
            Ok(meta) => is_meta_address(meta@) && meta_of_private_keys(
                spending_key@,
                viewing_key@,
            ) == Ok::<Seq<u8>, StealthError>(meta@),
            Err(e) => meta_of_private_keys(spending_key@, viewing_key@) == Err::<
                Seq<u8>,
                StealthError,
            >(e),
        },
{
    let spending: [u8; 33] = match compressed_public_key(spending_key) {
        Ok(key) => key,
        Err(e) => { return Err(e); },
    };
    let viewing: [u8; 33] = match compressed_public_key(viewing_key) {
        Ok(key) => key,
        Err(e) => { return Err(e); },
    };
    Ok(encode_meta_address(&spending, &viewing))
}

/// Decoding undoes encoding: the meta-address built from two public keys
/// decodes to those two keys, each in its own place.
pub proof fn lemma_meta_address_round_trip(spending: Seq<u8>, viewing: Seq<u8>)
    requires
        is_public_key(spending),
        is_public_key(viewing),
    ensures
        is_meta_address(spending + viewing),
        decoded_meta(spending + viewing) == Ok::<(Seq<u8>, Seq<u8>), StealthError>(
            (spending, viewing),
        ),
{
    let meta = spending + viewing;
    assert(spending_half(meta) =~= spending);
    assert(viewing_half(meta) =~= viewing);
}

/// The meta-address of two private keys decodes to their two public keys, the
/// spending key's first.
pub proof fn lemma_meta_address_of_private_keys_round_trip(
    spending_key: Seq<u8>,
    viewing_key: Seq<u8>,
)
    requires
        public_key_of(spending_key) is Ok,
        public_key_of(viewing_key) is Ok,
    ensures
        meta_of_private_keys(spending_key, viewing_key) matches Ok(meta) && decoded_meta(meta)
            == Ok::<(Seq<u8>, Seq<u8>), StealthError>(
            (base_multiple(spending_key), base_multiple(viewing_key)),
        ),
{
    lemma_meta_address_round_trip(base_multiple(spending_key), base_multiple(viewing_key));
}

} // verus!
