use stealth_lib::error::StealthError;
use stealth_lib::keys::{
    compress, compressed_public_key, decompress, is_valid_public_key, public_from_private,
};
use stealth_lib::meta::{decode_meta_address, encode_meta_address};

const G_COMPRESSED: &str = "0279be667ef9dcbbac55a06295ce870b07029bfcdb2dce28d959f2815b16f81798";
const G_UNCOMPRESSED: &str = "0479be667ef9dcbbac55a06295ce870b07029bfcdb2dce28d959f2815b16f81798483ada7726a3c4655da4fbfc0e1108a8fd17b448a68554199c47d08ffb10d4b8";
const TWO_G_COMPRESSED: &str = "02c6047f9441ed7d6d3045406e95c07cd85c778e4b8cef3ca7abac09b95c709ee5";
const MINUS_G_COMPRESSED: &str = "0379be667ef9dcbbac55a06295ce870b07029bfcdb2dce28d959f2815b16f81798";
const ORDER: &str = "fffffffffffffffffffffffffffffffebaaedce6af48a03bbfd25e8cd0364141";
const ORDER_MINUS_ONE: &str = "fffffffffffffffffffffffffffffffebaaedce6af48a03bbfd25e8cd0364140";

fn bytes<const N: usize>(hex_digits: &str) -> [u8; N] {
    let decoded = hex::decode(hex_digits).unwrap();
    let mut out = [0u8; N];
    out.copy_from_slice(&decoded);
    out
}

fn small(value: u8) -> [u8; 32] {
    let mut out = [0u8; 32];
    out[31] = value;
    out
}

#[test]
fn public_key_of_one_is_the_base_point() {
    assert_eq!(public_from_private(&small(1)), Ok(bytes::<65>(G_UNCOMPRESSED)));
    assert_eq!(compressed_public_key(&small(1)), Ok(bytes::<33>(G_COMPRESSED)));
}

#[test]
fn public_key_of_two_is_the_base_point_doubled() {
    assert_eq!(compressed_public_key(&small(2)), Ok(bytes::<33>(TWO_G_COMPRESSED)));
}

#[test]
fn public_key_of_the_largest_private_key() {
    let key = bytes::<32>(ORDER_MINUS_ONE);
    assert_eq!(compressed_public_key(&key), Ok(bytes::<33>(MINUS_G_COMPRESSED)));
}

#[test]
fn zero_has_no_public_key() {
    assert_eq!(public_from_private(&[0u8; 32]), Err(StealthError::InvalidScalar));
    assert_eq!(compressed_public_key(&[0u8; 32]), Err(StealthError::InvalidScalar));
}

#[test]
fn the_order_has_no_public_key() {
    assert_eq!(public_from_private(&bytes::<32>(ORDER)), Err(StealthError::InvalidScalar));
    assert_eq!(public_from_private(&[0xffu8; 32]), Err(StealthError::InvalidScalar));
}

#[test]
fn public_key_agrees_with_the_curve_library() {
    let key = [0x5au8; 32];
    let point = eth_stealth_addresses::get_pubkey_from_priv(eth_stealth_addresses::decode_priv(&key));
    assert_eq!(compressed_public_key(&key), Ok(eth_stealth_addresses::encode_pubkey(point)));
}

#[test]
fn decompress_the_base_point() {
    assert_eq!(decompress(&bytes::<33>(G_COMPRESSED)), Ok(bytes::<65>(G_UNCOMPRESSED)));
}

#[test]
fn decompress_picks_the_y_of_the_asked_parity() {
    let even = decompress(&bytes::<33>(G_COMPRESSED)).unwrap();
    let odd = decompress(&bytes::<33>(MINUS_G_COMPRESSED)).unwrap();
    assert_eq!(&even[..33], &odd[..33]);
    assert_eq!(even[64] % 2, 0);
    assert_eq!(odd[64] % 2, 1);
    assert_eq!(
        hex::encode(&odd[33..]),
        "b7c52588d95c3b9aa25b0403f1eef75702e84bb7597aabe663b82f6f04ef2777"
    );
}

#[test]
fn decompress_refuses_an_x_that_is_on_no_point() {
    let mut key = [0u8; 33];
    key[0] = 2;
    key[32] = 5;
    assert_eq!(decompress(&key), Err(StealthError::InvalidPoint));
    assert!(!is_valid_public_key(&key));
}

#[test]
fn decompress_refuses_other_leading_bytes() {
    let good = bytes::<33>(G_COMPRESSED);
    for lead in [0u8, 1, 4, 5, 6, 7, 0xff] {
        let mut key = good;
        key[0] = lead;
        assert_eq!(decompress(&key), Err(StealthError::InvalidPoint));
        assert!(!is_valid_public_key(&key));
    }
    assert_eq!(decompress(&[0u8; 33]), Err(StealthError::InvalidPoint));
}

#[test]
fn decompress_refuses_an_x_beyond_the_field() {
    let mut key = [0xffu8; 33];
    key[0] = 2;
    assert_eq!(decompress(&key), Err(StealthError::InvalidPoint));
}

#[test]
fn compress_the_base_point() {
    assert_eq!(compress(&bytes::<65>(G_UNCOMPRESSED)), Ok(bytes::<33>(G_COMPRESSED)));
}

#[test]
fn compress_writes_the_parity_of_y() {
    let odd = decompress(&bytes::<33>(MINUS_G_COMPRESSED)).unwrap();
    assert_eq!(compress(&odd), Ok(bytes::<33>(MINUS_G_COMPRESSED)));
}

#[test]
fn compress_refuses_a_point_off_the_curve() {
    let mut full = bytes::<65>(G_UNCOMPRESSED);
    full[64] ^= 2;
    assert_eq!(compress(&full), Err(StealthError::InvalidPoint));
    let mut full = bytes::<65>(G_UNCOMPRESSED);
    full[1] ^= 1;
    assert_eq!(compress(&full), Err(StealthError::InvalidPoint));
}

#[test]
fn compress_refuses_other_leading_bytes() {
    let mut full = bytes::<65>(G_UNCOMPRESSED);
    full[0] = 2;
    assert_eq!(compress(&full), Err(StealthError::InvalidPoint));
    full[0] = 0;
    assert_eq!(compress(&full), Err(StealthError::InvalidPoint));
    assert_eq!(compress(&[0u8; 65]), Err(StealthError::InvalidPoint));
}

#[test]
fn compress_and_decompress_undo_each_other() {
    for seed in 1..=20u8 {
        let key = [seed; 32];
        let full = public_from_private(&key).unwrap();
        let short = compress(&full).unwrap();
        assert_eq!(compressed_public_key(&key), Ok(short));
        assert_eq!(decompress(&short), Ok(full));
    }
}

#[test]
fn meta_address_puts_the_spending_key_first() {
    let spending = bytes::<33>(G_COMPRESSED);
    let viewing = bytes::<33>(TWO_G_COMPRESSED);
    let meta = encode_meta_address(&spending, &viewing);
    assert_eq!(&meta[..33], &spending[..]);
    assert_eq!(&meta[33..], &viewing[..]);
    let mut expected = String::from(G_COMPRESSED);
    expected.push_str(TWO_G_COMPRESSED);
    assert_eq!(hex::encode(meta), expected);
}

#[test]
fn meta_address_round_trip() {
    for seed in 1..=10u8 {
        let spending = compressed_public_key(&[seed; 32]).unwrap();
        let viewing = compressed_public_key(&[seed + 100; 32]).unwrap();
        let keys = decode_meta_address(&encode_meta_address(&spending, &viewing)).unwrap();
        assert_eq!(keys.spending, spending);
        assert_eq!(keys.viewing, viewing);
    }
}

#[test]
fn meta_address_agrees_with_the_curve_library() {
    let s = eth_stealth_addresses::get_pubkey_from_priv(eth_stealth_addresses::decode_priv(&[1u8; 32]));
    let v = eth_stealth_addresses::get_pubkey_from_priv(eth_stealth_addresses::decode_priv(&[2u8; 32]));
    let theirs = eth_stealth_addresses::encode_stealth_meta_address(s, v);
    let spending = compressed_public_key(&[1u8; 32]).unwrap();
    let viewing = compressed_public_key(&[2u8; 32]).unwrap();
    assert_eq!(encode_meta_address(&spending, &viewing), theirs);
}

#[test]
fn meta_address_of_65_bytes_is_refused_for_its_length() {
    let spending = bytes::<33>(G_COMPRESSED);
    let viewing = bytes::<33>(TWO_G_COMPRESSED);
    let meta = encode_meta_address(&spending, &viewing);
    let r = decode_meta_address(&meta[..65]);
    assert_eq!(r.err(), Some(StealthError::InvalidLength));
    let r = decode_meta_address(&meta[1..]);
    assert_eq!(r.err(), Some(StealthError::InvalidLength));
}

#[test]
fn meta_address_of_other_lengths_is_refused() {
    assert_eq!(decode_meta_address(&[]).err(), Some(StealthError::InvalidLength));
    assert_eq!(decode_meta_address(&[2u8; 67]).err(), Some(StealthError::InvalidLength));
    assert_eq!(decode_meta_address(&[2u8; 33]).err(), Some(StealthError::InvalidLength));
}

#[test]
fn meta_address_with_a_bad_half_is_refused() {
    let spending = bytes::<33>(G_COMPRESSED);
    let viewing = bytes::<33>(TWO_G_COMPRESSED);
    let mut bad = [0u8; 33];
    bad[0] = 2;
    bad[32] = 5;
    let r = decode_meta_address(&encode_meta_address(&bad, &viewing));
    assert_eq!(r.err(), Some(StealthError::InvalidPoint));
    let r = decode_meta_address(&encode_meta_address(&spending, &bad));
    assert_eq!(r.err(), Some(StealthError::InvalidPoint));
    let r = decode_meta_address(&[0u8; 66]);
    assert_eq!(r.err(), Some(StealthError::InvalidPoint));
}
