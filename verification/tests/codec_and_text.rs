use stealth_lib::codec::{decode_fixed, same_bytes};
use stealth_lib::error::StealthError;
use stealth_lib::text::{hexlify, read_fixed, unhexlify};

#[test]
fn decode_fixed_accepts_the_exact_length() {
    let bytes = vec![7u8, 8, 9];
    assert_eq!(decode_fixed::<3>(&bytes), Ok([7u8, 8, 9]));
}

#[test]
fn decode_fixed_refuses_shorter_and_longer() {
    let bytes = vec![7u8, 8, 9];
    assert_eq!(decode_fixed::<4>(&bytes), Err(StealthError::InvalidLength));
    assert_eq!(decode_fixed::<2>(&bytes), Err(StealthError::InvalidLength));
    assert_eq!(decode_fixed::<0>(&bytes), Err(StealthError::InvalidLength));
}

#[test]
fn decode_fixed_of_nothing() {
    let empty: Vec<u8> = Vec::new();
    assert_eq!(decode_fixed::<0>(&empty), Ok([0u8; 0]));
    assert_eq!(decode_fixed::<1>(&empty), Err(StealthError::InvalidLength));
}

#[test]
fn same_bytes_compares_every_byte() {
    let a = [1u8, 2, 3, 4];
    let mut b = a;
    assert!(same_bytes(&a, &b));
    b[3] = 5;
    assert!(!same_bytes(&a, &b));
    b = a;
    b[0] = 0;
    assert!(!same_bytes(&a, &b));
}

#[test]
fn hexlify_writes_prefix_and_lower_case_digits() {
    assert_eq!(hexlify(&[1u8, 2, 3, 15, 16]), "0x0102030f10");
    assert_eq!(hexlify(&[0xabu8, 0xcd, 0xef, 0x00, 0xff]), "0xabcdef00ff");
}

#[test]
fn hexlify_of_nothing_is_the_prefix() {
    assert_eq!(hexlify(&[]), "0x");
}

#[test]
fn unhexlify_reads_both_cases() {
    assert_eq!(unhexlify("0x0102030f10"), Ok(vec![1u8, 2, 3, 15, 16]));
    assert_eq!(unhexlify("0xABcdEf"), Ok(vec![0xabu8, 0xcd, 0xef]));
}

#[test]
fn unhexlify_of_the_bare_prefix_is_empty() {
    assert_eq!(unhexlify("0x"), Ok(Vec::new()));
}

#[test]
fn unhexlify_refuses_a_missing_or_wrong_prefix() {
    assert_eq!(unhexlify("0102"), Err(StealthError::InvalidHex));
    assert_eq!(unhexlify("0X0102"), Err(StealthError::InvalidHex));
    assert_eq!(unhexlify("x00102"), Err(StealthError::InvalidHex));
    assert_eq!(unhexlify("zz0102"), Err(StealthError::InvalidHex));
}

#[test]
fn unhexlify_refuses_short_texts() {
    assert_eq!(unhexlify(""), Err(StealthError::InvalidHex));
    assert_eq!(unhexlify("0"), Err(StealthError::InvalidHex));
}

#[test]
fn unhexlify_refuses_an_odd_number_of_digits() {
    assert_eq!(unhexlify("0x123"), Err(StealthError::InvalidHex));
}

#[test]
fn unhexlify_refuses_other_characters() {
    assert_eq!(unhexlify("0x12g4"), Err(StealthError::InvalidHex));
    assert_eq!(unhexlify("0x12 4"), Err(StealthError::InvalidHex));
    assert_eq!(unhexlify("0x12é4"), Err(StealthError::InvalidHex));
    assert_eq!(unhexlify("é0x1234"), Err(StealthError::InvalidHex));
}

#[test]
fn unhexlify_undoes_hexlify() {
    let mut bytes = Vec::new();
    for value in 0..=255u8 {
        bytes.push(value);
    }
    assert_eq!(unhexlify(&hexlify(&bytes)), Ok(bytes));
}

#[test]
fn read_fixed_checks_text_before_length() {
    assert_eq!(read_fixed::<2>("0x0a0b"), Ok([0x0au8, 0x0b]));
    assert_eq!(read_fixed::<2>("0x0a0b0c"), Err(StealthError::InvalidLength));
    assert_eq!(read_fixed::<2>("0x0a"), Err(StealthError::InvalidLength));
    assert_eq!(read_fixed::<2>("0a0b"), Err(StealthError::InvalidHex));
    assert_eq!(read_fixed::<2>("0x0a0"), Err(StealthError::InvalidHex));
}

#[test]
fn every_error_has_its_own_message() {
    let all = [
        StealthError::InvalidLength,
        StealthError::InvalidPoint,
        StealthError::InvalidScalar,
        StealthError::InvalidMetaAddress,
        StealthError::DegenerateSecret,
        StealthError::InvalidHex,
    ];
    for (i, a) in all.iter().enumerate() {
        assert!(!a.message().is_empty());
        for b in all.iter().skip(i + 1) {
            assert_ne!(a.message(), b.message());
        }
    }
    assert_eq!(StealthError::InvalidLength.message(), "invalid length");
}
