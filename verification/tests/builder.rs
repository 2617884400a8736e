use amadeus_mcp::builder::{
    build, build_mint_tx, build_mint_unit, build_transfer_tx, build_transfer_unit, build_unit,
    nonce_from_millis, verify_unit,
};
use amadeus_mcp::codec::{decode_tx, decode_txu, encode_tx, encode_txu};
use amadeus_mcp::error::{Invalid, TxError};
use amadeus_mcp::hasher::{hash_matches, hash_tx};
use amadeus_mcp::keys::get_public_key;
use amadeus_mcp::signer::{sign, verify, DST_TX};
use amadeus_mcp::tx::{Tx, TxAction};
use sha2::{Digest, Sha256};

const NOW_MS: i64 = 1_700_000_000_123;

fn secret() -> [u8; 64] {
    let mut sk = [0u8; 64];
    for (i, b) in sk.iter_mut().enumerate() {
        *b = (i as u8).wrapping_mul(7).wrapping_add(3);
    }
    sk
}

fn receiver() -> Vec<u8> {
    hex::decode("97f1d3a73197d7942695638c4fa9ac0fc3688c4f9774b905a14e3a3f171bac586c55e83ff97a1aeffb3af00adb22c6bb")
        .unwrap()
}

#[test]
fn the_nonce_is_the_instant_in_nanoseconds() {
    assert_eq!(nonce_from_millis(0), 0);
    assert_eq!(nonce_from_millis(1), 1_000_000);
    assert_eq!(nonce_from_millis(NOW_MS), 1_700_000_000_123_000_000);
    assert_eq!(nonce_from_millis(-2), -2_000_000);
    assert_eq!(nonce_from_millis(i64::MAX), i64::MAX as i128 * 1_000_000);
}

#[test]
fn a_transfer_takes_receiver_amount_symbol() {
    let unit = build_transfer_unit(&secret(), &receiver(), "AMA", 100_000_000_000, NOW_MS).unwrap();
    assert_eq!(
        unit.tx.action.args,
        vec![receiver(), b"100000000000".to_vec(), b"AMA".to_vec()]
    );
    assert_eq!(unit.tx.action.contract, "Coin");
    assert_eq!(unit.tx.action.function, "transfer");
    assert_eq!(unit.tx.action.op, "call");
    assert_eq!(unit.tx.action.attached_symbol, None);
    assert_eq!(unit.tx.action.attached_amount, None);
}

#[test]
fn a_mint_takes_symbol_amount() {
    let unit = build_mint_unit(&secret(), "AMA", 100, NOW_MS).unwrap();
    assert_eq!(unit.tx.action.args, vec![b"AMA".to_vec(), b"100".to_vec()]);
    assert_eq!(unit.tx.action.contract, "Coin");
    assert_eq!(unit.tx.action.function, "mint");
    assert_eq!(unit.tx.action.op, "call");
    assert_eq!(unit.tx.action.attached_symbol, None);
    assert_eq!(unit.tx.action.attached_amount, None);
}

#[test]
fn a_built_unit_holds_key_nonce_digest_and_signature() {
    let sk = secret();
    let unit = build_transfer_unit(&sk, &receiver(), "AMA", 100_000_000_000, NOW_MS).unwrap();
    assert_eq!(unit.tx.signer, get_public_key(&sk).unwrap());
    assert_eq!(unit.tx.nonce, 1_700_000_000_123_000_000);
    let digest = Sha256::digest(encode_tx(&unit.tx)).to_vec();
    assert_eq!(unit.hash, digest);
    assert_eq!(unit.hash, hash_tx(&unit.tx));
    assert_eq!(unit.hash.len(), 32);
    assert_eq!(unit.signature, sign(&sk, &unit.hash, DST_TX.as_bytes()).unwrap());
    assert!(verify(&unit.tx.signer, &unit.hash, DST_TX.as_bytes(), &unit.signature));
    assert!(hash_matches(&unit));
}

#[test]
fn building_twice_gives_the_same_bytes() {
    let sk = secret();
    let first = build_transfer_tx(&sk, &receiver(), "AMA", 100_000_000_000, NOW_MS).unwrap();
    let second = build_transfer_tx(&sk, &receiver(), "AMA", 100_000_000_000, NOW_MS).unwrap();
    assert_eq!(first, second);
    let unit = build_transfer_unit(&sk, &receiver(), "AMA", 100_000_000_000, NOW_MS).unwrap();
    assert_eq!(first, encode_txu(&unit));
}

#[test]
fn the_packed_unit_decodes_to_what_was_built() {
    let sk = secret();
    let packed = build_mint_tx(&sk, "AMA", 100, NOW_MS).unwrap();
    let unit = decode_txu(&packed).unwrap();
    assert_eq!(unit.tx.action.args, vec![b"AMA".to_vec(), b"100".to_vec()]);
    assert_eq!(unit.tx.signer, get_public_key(&sk).unwrap());
    assert!(hash_matches(&unit));
    let again = decode_tx(&encode_tx(&unit.tx)).unwrap();
    assert_eq!(hash_tx(&again), unit.hash);
    assert!(verify(&unit.tx.signer, &unit.hash, DST_TX.as_bytes(), &unit.signature));
}

#[test]
fn a_change_in_any_field_changes_the_digest() {
    let unit = build_mint_unit(&secret(), "AMA", 100, NOW_MS).unwrap();
    let base = hash_tx(&unit.tx);
    let mut tx = unit.tx.clone();
    tx.nonce += 1;
    assert_ne!(hash_tx(&tx), base);
    let mut tx = unit.tx.clone();
    tx.signer[0] ^= 1;
    assert_ne!(hash_tx(&tx), base);
    let mut tx = unit.tx.clone();
    tx.action.args[1] = b"101".to_vec();
    assert_ne!(hash_tx(&tx), base);
    let mut tx = unit.tx.clone();
    tx.action.function = "burn".to_string();
    assert_ne!(hash_tx(&tx), base);
    let mut tx = unit.tx.clone();
    tx.action.contract = "coin".to_string();
    assert_ne!(hash_tx(&tx), base);
    let mut tx = unit.tx.clone();
    tx.action.op = "cal".to_string();
    assert_ne!(hash_tx(&tx), base);
    let mut tx = unit.tx.clone();
    tx.action.attached_symbol = Some(vec![]);
    assert_ne!(hash_tx(&tx), base);
    let mut tampered = unit.clone();
    tampered.tx.nonce += 1;
    assert!(!hash_matches(&tampered));
}

#[test]
fn a_call_with_an_attached_asset_carries_it() {
    let args = vec![b"x".to_vec()];
    let unit = build_unit(
        &secret(),
        "Dex",
        "swap",
        &args,
        Some(b"AMA".as_slice()),
        Some(b"25".as_slice()),
        NOW_MS,
    )
    .unwrap();
    assert_eq!(unit.tx.action.attached_symbol, Some(b"AMA".to_vec()));
    assert_eq!(unit.tx.action.attached_amount, Some(b"25".to_vec()));
    assert_eq!(unit.tx.action.args, args);
    assert_eq!(unit.tx.action.contract, "Dex");
    assert_eq!(unit.tx.action.function, "swap");
    assert_eq!(unit.tx.action.op, "call");
    let packed = build(
        &secret(),
        "Dex",
        "swap",
        &args,
        Some(b"AMA".as_slice()),
        Some(b"25".as_slice()),
        NOW_MS,
    )
    .unwrap();
    assert_eq!(packed, encode_txu(&unit));
}

#[test]
fn a_secret_of_another_length_is_rejected() {
    let expected = TxError::Validation(Invalid::SecretLength);
    assert_eq!(build_mint_tx(&[1u8; 63], "AMA", 100, NOW_MS), Err(expected));
    assert_eq!(build_transfer_tx(&[1u8; 65], &receiver(), "AMA", 1, NOW_MS), Err(expected));
    assert_eq!(build(&[], "Coin", "mint", &[], None, None, NOW_MS), Err(expected));
}

#[test]
fn a_receiver_of_another_length_is_rejected() {
    let expected = TxError::Validation(Invalid::AddressLength);
    assert_eq!(build_transfer_tx(&secret(), &[2u8; 47], "AMA", 1, NOW_MS), Err(expected));
    assert_eq!(build_transfer_tx(&secret(), &[2u8; 49], "AMA", 1, NOW_MS), Err(expected));
    assert_eq!(build_transfer_tx(&secret(), &[], "AMA", 1, NOW_MS), Err(expected));
    assert_eq!(build_transfer_tx(&[1u8; 3], &[2u8; 47], "AMA", 1, NOW_MS), Err(expected));
}

#[test]
fn the_zero_secret_derives_a_key_and_cannot_sign() {
    let sk = [0u8; 64];
    let pk = get_public_key(&sk).unwrap();
    assert_eq!(pk, get_public_key(&sk).unwrap());
    let tx = Tx {
        action: TxAction {
            args: vec![receiver(), b"100000000000".to_vec(), b"AMA".to_vec()],
            contract: "Coin".to_string(),
            function: "transfer".to_string(),
            op: "call".to_string(),
            attached_symbol: None,
            attached_amount: None,
        },
        nonce: nonce_from_millis(NOW_MS),
        signer: pk.clone(),
    };
    let digest = hash_tx(&tx);
    assert_eq!(digest, hash_tx(&tx.clone()));
    assert_eq!(digest, Sha256::digest(encode_tx(&tx)).to_vec());
    assert_eq!(sign(&sk, &digest, DST_TX.as_bytes()), Err(TxError::Crypto));
    assert_eq!(
        build_transfer_tx(&sk, &receiver(), "AMA", 100_000_000_000, NOW_MS),
        Err(TxError::Crypto)
    );
    assert_eq!(build_mint_tx(&sk, "AMA", 100, NOW_MS), Err(TxError::Crypto));
}

#[test]
fn end_to_end_transfer_is_reproducible_and_verifies() {
    let mut sk = [0u8; 64];
    sk[0] = 1;
    let key = get_public_key(&sk).unwrap();
    assert_eq!(key, receiver());
    let first = build_transfer_unit(&sk, &receiver(), "AMA", 100_000_000_000, NOW_MS).unwrap();
    let second = build_transfer_unit(&sk, &receiver(), "AMA", 100_000_000_000, NOW_MS).unwrap();
    assert_eq!(first.tx.signer, key);
    assert_eq!(first.hash, second.hash);
    assert_eq!(first.signature, second.signature);
    assert_eq!(first.tx.signer, second.tx.signer);
    assert!(verify(&key, &first.hash, DST_TX.as_bytes(), &first.signature));
    assert!(!verify(&key, &[0u8; 32], DST_TX.as_bytes(), &first.signature));
}

#[test]
fn amounts_below_zero_keep_their_sign() {
    let unit = build_mint_unit(&secret(), "AMA", -5, NOW_MS).unwrap();
    assert_eq!(unit.tx.action.args[1], b"-5".to_vec());
}

#[test]
fn a_built_unit_is_sound_and_a_tampered_one_is_not() {
    let unit = build_transfer_unit(&secret(), &receiver(), "AMA", 100_000_000_000, NOW_MS).unwrap();
    assert!(verify_unit(&unit));
    assert!(verify_unit(&decode_txu(&encode_txu(&unit)).unwrap()));
    let mut other = unit.clone();
    other.tx.nonce += 1;
    assert!(!verify_unit(&other));
    let mut other = unit.clone();
    other.hash[0] ^= 1;
    assert!(!verify_unit(&other));
    let mut other = unit.clone();
    other.signature[5] ^= 1;
    assert!(!verify_unit(&other));
    let mut other = unit.clone();
    other.tx.signer = get_public_key(&[9u8; 64]).unwrap();
    other.hash = hash_tx(&other.tx);
    assert!(hash_matches(&other));
    assert!(!verify_unit(&other));
}
