//! Fixed-width byte buffers: the length-checked conversion that every boundary
//! crossing goes through, and the copies and comparisons built on it.

use crate::error::StealthError;
use vstd::prelude::*;

verus! {

/// A private key: a scalar, most significant byte first.
pub type PrivateKey = [u8; 32];

/// A public key in compressed form: a parity byte, then the x-coordinate.
pub type PublicKeyCompressed = [u8; 33];

/// A public key in uncompressed form: the byte 4, then both coordinates.
pub type PublicKeyUncompressed = [u8; 65];

/// A stealth meta-address: the spending public key, then the viewing public
/// key, both compressed.
pub type StealthMetaAddress = [u8; 66];

/// An address: the last 20 bytes of the digest of a public key.
pub type Address = [u8; 20];

/// A view tag: the first byte of the digest of a shared secret.
pub type ViewTag = u8;

/// Converts a buffer of any length into an array of exactly `N` bytes.
///
/// A buffer of another length is refused; nothing is cut off or filled up.
pub fn decode_fixed<const N: usize>(bytes: &[u8]) -> (r: Result<[u8; N], StealthError>)
    ensures
        match r {
            Ok(array) => bytes@.len() == N && array@ == bytes@,
            Err(e) => bytes@.len() != N && e == StealthError::InvalidLength,
        },
{
    if bytes.len() != N {
        return Err(StealthError::InvalidLength);
    }
    let array: [u8; N] = copy_window(bytes, 0);
    assert(bytes@.subrange(0, N as int) =~= bytes@);
    Ok(array)
}

/// The `N` bytes of `source` that start at `start`.
pub(crate) fn copy_window<const N: usize>(source: &[u8], start: usize) -> (r: [u8; N])
    requires
        start + N <= source@.len(),
    ensures
        r@ == source@.subrange(start as int, start + N),
{
    let mut out: [u8; N] = [0u8; N];
    let total: usize = source.len();
    let mut i: usize = 0;
    while i < N
        invariant
            i <= N,
            start + N <= total,
            total == source@.len(),
            forall|j: int| 0 <= j < i ==> out@[j] == source@[start + j],
        decreases N - i,
    {
        out[i] = source[start + i];
        i += 1;
    }
    assert(out@ =~= source@.subrange(start as int, start + N));
    out
}

/// Whether two arrays hold the same bytes.
pub fn same_bytes<const N: usize>(a: &[u8; N], b: &[u8; N]) -> (r: bool)
    ensures
        r == (a@ == b@),
{
    let mut i: usize = 0;
    while i < N
        invariant
            i <= N,
            forall|j: int| 0 <= j < i ==> a@[j] == b@[j],
        decreases N - i,
    {
        if a[i] != b[i] {
            return false;
        }
        i += 1;
    }
    assert(a@ =~= b@);
    true
}

} // verus!
