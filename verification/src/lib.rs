//! Stealth addresses over secp256k1: meta-addresses, one-time addresses,
//! view-tag filtered recognition and recovery of the spending key.

pub mod api;
pub mod codec;
pub mod curve;
pub mod error;
pub mod keys;
pub mod laws;
pub mod meta;
pub mod scalar;
pub mod stealth;
pub mod text;

pub use crate::api::{
    check_stealth, get_stealth_meta_address, new_stealth_address, reveal_stealth_key,
    scan_for_payments, StealthAddressOutput,
};
pub use crate::error::StealthError;
