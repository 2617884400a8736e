use amadeus_mcp::error::{Invalid, TxError};
use amadeus_mcp::keys::get_public_key;
use amadeus_mcp::signer::{sign, verify, DST_TX};

fn secret(fill: u8) -> [u8; 64] {
    [fill; 64]
}

#[test]
fn the_tag_names_the_protocol() {
    assert_eq!(DST_TX, "AMADEUS_SIG_BLS12381G2_XMD:SHA-256_SSWU_RO_TX_");
}

#[test]
fn a_signature_verifies_under_the_derived_key() {
    let sk = secret(7);
    let message = [0x11u8; 32];
    let signature = sign(&sk, &message, DST_TX.as_bytes()).unwrap();
    assert_eq!(signature.len(), 96);
    let pk = get_public_key(&sk).unwrap();
    assert!(verify(&pk, &message, DST_TX.as_bytes(), &signature));
}

#[test]
fn a_signature_fails_for_another_message() {
    let sk = secret(7);
    let signature = sign(&sk, &[0x11u8; 32], DST_TX.as_bytes()).unwrap();
    let pk = get_public_key(&sk).unwrap();
    assert!(!verify(&pk, &[0x12u8; 32], DST_TX.as_bytes(), &signature));
}

#[test]
fn a_signature_fails_for_another_key() {
    let signature = sign(&secret(7), &[0x11u8; 32], DST_TX.as_bytes()).unwrap();
    let other = get_public_key(&secret(8)).unwrap();
    assert!(!verify(&other, &[0x11u8; 32], DST_TX.as_bytes(), &signature));
}

#[test]
fn a_signature_fails_under_another_tag() {
    let sk = secret(7);
    let signature = sign(&sk, &[0x11u8; 32], DST_TX.as_bytes()).unwrap();
    let pk = get_public_key(&sk).unwrap();
    assert!(!verify(&pk, &[0x11u8; 32], b"ANOTHER_PROTOCOL_", &signature));
}

#[test]
fn signing_is_repeatable() {
    let sk = secret(9);
    let first = sign(&sk, &[3u8; 32], DST_TX.as_bytes()).unwrap();
    let second = sign(&sk, &[3u8; 32], DST_TX.as_bytes()).unwrap();
    assert_eq!(first, second);
}

#[test]
fn the_signature_is_the_one_of_the_reduced_scalar() {
    let mut sk = [0u8; 64];
    sk[0] = 5;
    let mut scalar = [0u8; 32];
    scalar[31] = 5;
    let key = blst::min_pk::SecretKey::from_bytes(&scalar).unwrap();
    let expected = key.sign(&[3u8; 32], DST_TX.as_bytes(), &[]).to_bytes();
    let signature = sign(&sk, &[3u8; 32], DST_TX.as_bytes()).unwrap();
    assert_eq!(signature, expected.to_vec());
    assert_eq!(get_public_key(&sk).unwrap(), key.sk_to_pk().to_bytes().to_vec());
}

#[test]
fn the_zero_secret_cannot_sign() {
    assert_eq!(sign(&[0u8; 64], &[1u8; 32], DST_TX.as_bytes()), Err(TxError::Crypto));
}

#[test]
fn a_secret_of_another_length_cannot_sign() {
    let expected = Err(TxError::Validation(Invalid::SecretLength));
    assert_eq!(sign(&[1u8; 32], &[1u8; 32], DST_TX.as_bytes()), expected);
    assert_eq!(sign(&[], &[1u8; 32], DST_TX.as_bytes()), expected);
}

#[test]
fn bytes_that_are_no_key_or_no_signature_do_not_verify() {
    let sk = secret(7);
    let message = [0x11u8; 32];
    let signature = sign(&sk, &message, DST_TX.as_bytes()).unwrap();
    let pk = get_public_key(&sk).unwrap();
    assert!(!verify(&pk[..47], &message, DST_TX.as_bytes(), &signature));
    assert!(!verify(&pk, &message, DST_TX.as_bytes(), &signature[..95]));
    assert!(!verify(&[0u8; 48], &message, DST_TX.as_bytes(), &signature));
    assert!(!verify(&pk, &message, DST_TX.as_bytes(), &[0u8; 96]));
    assert!(!verify(&signature, &message, DST_TX.as_bytes(), &signature));
}
