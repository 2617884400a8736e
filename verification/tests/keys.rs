use amadeus_mcp::error::{Invalid, TxError};
use amadeus_mcp::keys::get_public_key;

const GENERATOR: &str = "97f1d3a73197d7942695638c4fa9ac0fc3688c4f9774b905a14e3a3f171bac586c55e83ff97a1aeffb3af00adb22c6bb";

/// The order of the scalar field, least significant byte first, in 64 bytes.
fn order_wide() -> [u8; 64] {
    let big_endian =
        hex::decode("73eda753299d7d483339d80809a1d80553bda402fffe5bfeffffffff00000001").unwrap();
    let mut wide = [0u8; 64];
    for (i, b) in big_endian.iter().rev().enumerate() {
        wide[i] = *b;
    }
    wide
}

fn secret_for_one() -> [u8; 64] {
    let mut secret = [0u8; 64];
    secret[0] = 1;
    secret
}

#[test]
fn the_secret_one_gives_the_base_point() {
    let pk = get_public_key(&secret_for_one()).unwrap();
    assert_eq!(pk.len(), 48);
    assert_eq!(hex::encode(&pk), GENERATOR);
}

#[test]
fn the_zero_secret_gives_the_point_at_infinity() {
    let pk = get_public_key(&[0u8; 64]).unwrap();
    let mut expected = vec![0u8; 48];
    expected[0] = 0xc0;
    assert_eq!(pk, expected);
}

#[test]
fn secrets_are_reduced_modulo_the_order() {
    let mut wide = order_wide();
    assert_eq!(get_public_key(&wide).unwrap(), get_public_key(&[0u8; 64]).unwrap());
    wide[0] += 1;
    assert_eq!(hex::encode(get_public_key(&wide).unwrap()), GENERATOR);
}

#[test]
fn the_upper_half_of_a_secret_counts() {
    let mut secret = [0u8; 64];
    secret[63] = 1;
    let pk = get_public_key(&secret).unwrap();
    assert_ne!(pk, get_public_key(&[0u8; 64]).unwrap());
    assert_ne!(hex::encode(&pk), GENERATOR);
}

#[test]
fn derivation_is_repeatable() {
    let secret = [0x5au8; 64];
    assert_eq!(get_public_key(&secret).unwrap(), get_public_key(&secret).unwrap());
}

#[test]
fn secrets_of_other_lengths_are_invalid() {
    let expected = Err(TxError::Validation(Invalid::SecretLength));
    assert_eq!(get_public_key(&[]), expected);
    assert_eq!(get_public_key(&[1u8; 63]), expected);
    assert_eq!(get_public_key(&[1u8; 65]), expected);
    assert_eq!(get_public_key(&[1u8; 32]), expected);
}
