use stealth_lib::scalar::{add_scalars, is_valid_private_key, reduce_scalar};

const ORDER_HEX: &str = "fffffffffffffffffffffffffffffffebaaedce6af48a03bbfd25e8cd0364141";

fn scalar(hex_digits: &str) -> [u8; 32] {
    let bytes = hex::decode(hex_digits).unwrap();
    let mut out = [0u8; 32];
    out.copy_from_slice(&bytes);
    out
}

fn small(value: u8) -> [u8; 32] {
    let mut out = [0u8; 32];
    out[31] = value;
    out
}

#[test]
fn zero_is_no_private_key() {
    assert!(!is_valid_private_key(&[0u8; 32]));
}

#[test]
fn one_is_a_private_key() {
    assert!(is_valid_private_key(&small(1)));
}

#[test]
fn order_minus_one_is_a_private_key() {
    let key = scalar("fffffffffffffffffffffffffffffffebaaedce6af48a03bbfd25e8cd0364140");
    assert!(is_valid_private_key(&key));
}

#[test]
fn order_is_no_private_key() {
    assert!(!is_valid_private_key(&scalar(ORDER_HEX)));
}

#[test]
fn order_plus_one_is_no_private_key() {
    let key = scalar("fffffffffffffffffffffffffffffffebaaedce6af48a03bbfd25e8cd0364142");
    assert!(!is_valid_private_key(&key));
}

#[test]
fn all_ones_is_no_private_key() {
    assert!(!is_valid_private_key(&[0xffu8; 32]));
}

#[test]
fn upper_half_decides_before_lower_half() {
    // Below the order in the upper half, above it in the lower half.
    let key = scalar("fffffffffffffffffffffffffffffffdffffffffffffffffffffffffffffffff");
    assert!(is_valid_private_key(&key));
    // Above the order in the upper half, below it in the lower half.
    let key = scalar("ffffffffffffffffffffffffffffffff00000000000000000000000000000000");
    assert!(!is_valid_private_key(&key));
}

#[test]
fn reduce_keeps_what_is_below_the_order() {
    let key = scalar("00000000000000000000000000000000000000000000000000000000deadbeef");
    assert_eq!(reduce_scalar(&key), key);
    assert_eq!(reduce_scalar(&[0u8; 32]), [0u8; 32]);
}

#[test]
fn reduce_takes_the_order_away_once() {
    assert_eq!(reduce_scalar(&scalar(ORDER_HEX)), [0u8; 32]);
    let above = scalar("fffffffffffffffffffffffffffffffebaaedce6af48a03bbfd25e8cd0364146");
    assert_eq!(reduce_scalar(&above), small(5));
    // 2^256 - 1 - n
    let expected = scalar("000000000000000000000000000000014551231950b75fc4402da1732fc9bebe");
    assert_eq!(reduce_scalar(&[0xffu8; 32]), expected);
}

#[test]
fn add_small_scalars() {
    assert_eq!(add_scalars(&small(1), &small(2)), small(3));
    assert_eq!(add_scalars(&[0u8; 32], &small(9)), small(9));
}

#[test]
fn add_carries_between_the_halves() {
    let a = scalar("00000000000000000000000000000000ffffffffffffffffffffffffffffffff");
    let expected = scalar("0000000000000000000000000000000100000000000000000000000000000000");
    assert_eq!(add_scalars(&a, &small(1)), expected);
}

#[test]
fn add_wraps_at_the_order() {
    let top = scalar("fffffffffffffffffffffffffffffffebaaedce6af48a03bbfd25e8cd0364140");
    assert_eq!(add_scalars(&top, &small(1)), [0u8; 32]);
    assert_eq!(add_scalars(&top, &small(3)), small(2));
    // (n - 1) + (n - 1) = n - 2 modulo n
    let expected = scalar("fffffffffffffffffffffffffffffffebaaedce6af48a03bbfd25e8cd036413f");
    assert_eq!(add_scalars(&top, &top), expected);
}

#[test]
fn add_reduces_its_arguments() {
    // n + 1 and n + 2 add up to 3.
    let a = scalar("fffffffffffffffffffffffffffffffebaaedce6af48a03bbfd25e8cd0364142");
    let b = scalar("fffffffffffffffffffffffffffffffebaaedce6af48a03bbfd25e8cd0364143");
    assert_eq!(add_scalars(&a, &b), small(3));
    // 2 * (2^256 - 1 - n)
    let expected = scalar("000000000000000000000000000000028aa24632a16ebf88805b42e65f937d7c");
    assert_eq!(add_scalars(&[0xffu8; 32], &[0xffu8; 32]), expected);
}

#[test]
fn add_agrees_with_the_curve_library() {
    let a = scalar("8b3a350cf5c34c9194ca85829a2df0ec3153be0318b5e2d3348e872092edffba");
    let b = scalar("f1e2d3c4b5a69788796a5b4c3d2e1f00112233445566778899aabbccddeeff00");
    let x = eth_stealth_addresses::decode_priv(&a);
    let y = eth_stealth_addresses::decode_priv(&b);
    assert_eq!(add_scalars(&a, &b), eth_stealth_addresses::encode_priv(x + y));
}
