//! The four operations as a host calls them: every key, address and
//! meta-address in its text form, `0x` and hexadecimal digits.

use crate::codec::{Address, PublicKeyCompressed, ViewTag};
use crate::error::StealthError;
use crate::meta::{is_meta_address, meta_address_of_private_keys, meta_of_private_keys};
use crate::stealth::{
    check_stealth_address_with_keys, compute_stealth_key, generate_stealth_address, generation,
    recognition_by_keys, recovery,
};
use crate::text::{fixed_from_text, hexlify, prefixed_hex, read_fixed};
use vstd::prelude::*;

verus! {

/// The scheme that this library implements: stealth addresses over secp256k1
/// with view tags.
pub const SCHEME_ID: u8 = 0;

/// A stealth address as it is announced.
#[derive(Clone, Debug)]
pub struct StealthAddressOutput {
    /// The scheme by which the address was built.
    pub scheme_id: u8,
    /// The stealth address, in text form.
    pub address: String,
    /// The ephemeral public key, compressed, in text form.
    pub ephemeral_pubkey: String,
    /// The view tag.
    pub view_tag: u8,
}

impl StealthAddressOutput {
    /// Whether `self` announces what generation returned.
    pub open spec fn announces(self, generated: (Seq<u8>, Seq<u8>, u8)) -> bool {
        &&& self.scheme_id == SCHEME_ID
        &&& self.address@ == prefixed_hex(generated.0)
        &&& self.ephemeral_pubkey@ == prefixed_hex(generated.1)
        &&& self.view_tag == generated.2
    }

    /// Puts a stealth address, its ephemeral public key and its view tag into
    /// the form in which they are announced.
    pub fn new(address: &Address, ephemeral_pubkey: &PublicKeyCompressed, view_tag: ViewTag) -> (out:
        Self)
        ensures
            out.announces((address@, ephemeral_pubkey@, view_tag)),
    {
        StealthAddressOutput {
            scheme_id: SCHEME_ID,
            address: hexlify(address),
            ephemeral_pubkey: hexlify(ephemeral_pubkey),
            view_tag,
        }
    }
}

/// What [`get_stealth_meta_address`] returns for two private keys in text
/// form.
pub open spec fn meta_address_text(spending_key: Seq<char>, viewing_key: Seq<char>) -> Result<
    Seq<char>,
    StealthError,
> {
    match fixed_from_text(spending_key, 32) {
        Err(e) => Err(e),
        Ok(spending) => match fixed_from_text(viewing_key, 32) {
            Err(e) => Err(e),
            Ok(viewing) => match meta_of_private_keys(spending, viewing) {
                Ok(meta) => Ok(prefixed_hex(meta)),
                Err(e) => Err(e),
            },
        },
    }
}

/// What [`check_stealth`] returns.
pub open spec fn check_outcome(
    stealth_address: Seq<char>,
    ephemeral_pubkey: Seq<char>,
    viewing_key: Seq<char>,
    spending_key: Seq<char>,
    view_tag: u8,
) -> Result<bool, StealthError> {
    match fixed_from_text(spending_key, 32) {
        Err(e) => Err(e),
        Ok(spending) => match fixed_from_text(viewing_key, 32) {
            Err(e) => Err(e),
            Ok(viewing) => match fixed_from_text(stealth_address, 20) {
                Err(e) => Err(e),
                Ok(address) => match fixed_from_text(ephemeral_pubkey, 33) {
                    Err(e) => Err(e),
                    Ok(ephemeral) => recognition_by_keys(
                        address,
                        ephemeral,
                        viewing,
                        spending,
                        view_tag,
                    ),
                },
            },
        },
    }
}

/// What [`reveal_stealth_key`] returns.
pub open spec fn revealed_key(
    spending_key: Seq<char>,
    viewing_key: Seq<char>,
    stealth_address: Seq<char>,
    ephemeral_pubkey: Seq<char>,
) -> Result<Seq<char>, StealthError> {
    match fixed_from_text(spending_key, 32) {
        Err(e) => Err(e),
        Ok(spending) => match fixed_from_text(viewing_key, 32) {
            Err(e) => Err(e),
            Ok(viewing) => match fixed_from_text(stealth_address, 20) {
                Err(e) => Err(e),
                Ok(address) => match fixed_from_text(ephemeral_pubkey, 33) {
                    Err(e) => Err(e),
                    Ok(ephemeral) => match recovery(ephemeral, viewing, spending) {
                        Ok(key) => Ok(prefixed_hex(key)),
                        Err(e) => Err(e),
                    },
                },
            },
        },
    }
}

/// Builds a stealth address on a meta-address given in text form.
///
/// The text is refused with `InvalidHex` where it is not `0x` and hexadecimal
/// digits, with `InvalidLength` where it does not spell 66 bytes, and with
/// `InvalidMetaAddress` where a half of those bytes is no public key.
/// `DegenerateSecret` says that no ephemeral key that was drawn led to a
/// stealth address.
pub fn new_stealth_address(stealth_meta_address: String) -> (r: Result<
    StealthAddressOutput,
    StealthError,
>)
    ensures
        match r {
            Ok(out) => fixed_from_text(stealth_meta_address@, 66) matches Ok(meta)
                && exists|ephemeral: Seq<u8>|
                #[trigger] generation(meta, ephemeral) matches Ok(generated) && out.announces(
                    generated,
                ),
            Err(e) => match fixed_from_text(stealth_meta_address@, 66) {
                Err(cause) => e == cause,
                Ok(meta) => if is_meta_address(meta) {
                    e == StealthError::DegenerateSecret
                } else {
                    e == StealthError::InvalidMetaAddress
                },
            },
        },
        fixed_from_text(stealth_meta_address@, 66) matches Ok(meta) ==> (!is_meta_address(meta)
            ==> r is Err),
        fixed_from_text(stealth_meta_address@, 66) is Err ==> r is Err,
{
    let meta: [u8; 66] = match read_fixed::<66>(stealth_meta_address.as_str()) {
        Ok(meta) => meta,
        Err(e) => { return Err(e); },
    };
    match generate_stealth_address(&meta) {
        Ok(generated) => {
            let out = StealthAddressOutput::new(&generated.0, &generated.1, generated.2);
            Ok(out)
        },
        Err(e) => Err(e),
    }
}

/// The meta-address of a spending and a viewing private key, all three in
/// text form.
///
/// A key is refused with `InvalidHex` where it is not `0x` and hexadecimal
/// digits, with `InvalidLength` where it does not spell 32 bytes, and with
/// `InvalidScalar` where it has no public key. The spending key is looked at
/// first.
pub fn get_stealth_meta_address(pks: String, pkv: String) -> (r: Result<String, StealthError>)
    ensures
        match r {
            Ok(text) => meta_address_text(pks@, pkv@) == Ok::<Seq<char>, StealthError>(text@),
            Err(e) => meta_address_text(pks@, pkv@) == Err::<Seq<char>, StealthError>(e),
        },
{
    let spending_key: [u8; 32] = match read_fixed::<32>(pks.as_str()) {
        Ok(key) => key,
        Err(e) => { return Err(e); },
    };
    let viewing_key: [u8; 32] = match read_fixed::<32>(pkv.as_str()) {
        Ok(key) => key,
        Err(e) => { return Err(e); },
    };
    match meta_address_of_private_keys(&spending_key, &viewing_key) {
        Ok(meta) => Ok(hexlify(&meta)),
        Err(e) => Err(e),
    }
}

/// Tells whether a stealth address belongs to the holder of a viewing and a
/// spending private key; everything but the view tag is in text form.
///
/// Each text is refused with `InvalidHex` or `InvalidLength` as in
/// [`read_fixed`], in the order spending key, viewing key, address, ephemeral
/// public key, before any key is looked at. A spending or viewing key that is
/// no private key is then refused with `InvalidScalar`, an ephemeral public
/// key that is none with `InvalidPoint`. No failure comes back as `false`.
pub fn check_stealth(
    stealth_address: String,
    ephemeral_pubkey: String,
    viewing_key: String,
    spending_key: String,
    view_tag: u8,
) -> (r: Result<bool, StealthError>)
    ensures
        r == check_outcome(
            stealth_address@,
            ephemeral_pubkey@,
            viewing_key@,
            spending_key@,
            view_tag,
        ),
{
    let spending: [u8; 32] = match read_fixed::<32>(spending_key.as_str()) {
        Ok(key) => key,
        Err(e) => { return Err(e); },
    };
    let viewing: [u8; 32] = match read_fixed::<32>(viewing_key.as_str()) {
        Ok(key) => key,
        Err(e) => { return Err(e); },
    };
    let address: [u8; 20] = match read_fixed::<20>(stealth_address.as_str()) {
        Ok(address) => address,
        Err(e) => { return Err(e); },
    };
    let ephemeral: [u8; 33] = match read_fixed::<33>(ephemeral_pubkey.as_str()) {
        Ok(key) => key,
        Err(e) => { return Err(e); },
    };
    check_stealth_address_with_keys(&address, &ephemeral, &viewing, &spending, view_tag)
}

/// The private key of a stealth address, from the spending and viewing
/// private keys and the ephemeral public key; all in text form.
///
/// Each text is refused with `InvalidHex` or `InvalidLength` as in
/// [`read_fixed`], in the order spending key, viewing key, address, ephemeral
/// public key. A spending or viewing key that is no private key is refused
/// with `InvalidScalar`, an ephemeral public key that is none with
/// `InvalidPoint`. The address is read and takes no part in the derivation.
pub fn reveal_stealth_key(
    spending_key: String,
    viewing_key: String,
    stealth_address: String,
    ephemeral_pubkey: String,
) -> (r: Result<String, StealthError>)
    ensures
        match r {
            Ok(text) => revealed_key(
                spending_key@,
                viewing_key@,
                stealth_address@,
                ephemeral_pubkey@,
            ) == Ok::<Seq<char>, StealthError>(text@),
            Err(e) => revealed_key(
                spending_key@,
                viewing_key@,
                stealth_address@,
                ephemeral_pubkey@,
            ) == Err::<Seq<char>, StealthError>(e),
        },
{
    let spending: [u8; 32] = match read_fixed::<32>(spending_key.as_str()) {
        Ok(key) => key,
        Err(e) => { return Err(e); },
    };
    let viewing: [u8; 32] = match read_fixed::<32>(viewing_key.as_str()) {
        Ok(key) => key,
        Err(e) => { return Err(e); },
    };
    let address: [u8; 20] = match read_fixed::<20>(stealth_address.as_str()) {
        Ok(address) => address,
        Err(e) => { return Err(e); },
    };
    let ephemeral: [u8; 33] = match read_fixed::<33>(ephemeral_pubkey.as_str()) {
        Ok(key) => key,
        Err(e) => { return Err(e); },
    };
    match compute_stealth_key(&address, &ephemeral, &viewing, &spending) {
        Ok(key) => Ok(hexlify(&key)),
        Err(e) => Err(e),
    }
}

/// Looks for payments among announced stealth addresses. The announcements are
/// on a chain that this library does not read, so there is nothing to look
/// through: a host collects them and holds each against
/// [`check_stealth`].
pub fn scan_for_payments() {
}

} // verus!
