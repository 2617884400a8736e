use amadeus_mcp::builder::build_transfer_unit;
use amadeus_mcp::codec::{decode_txu, encode_txu};
use amadeus_mcp::error::{Invalid, TxError};
use amadeus_mcp::faucet::{
    conclude_transfer, prepare_transfer, PreparedTransfer, FAUCET_AMOUNT, FAUCET_SYMBOL,
};
use amadeus_mcp::keys::get_public_key;

const NOW_MS: i64 = 1_700_000_000_123;

fn secret() -> [u8; 64] {
    [0x21u8; 64]
}

fn receiver() -> Vec<u8> {
    get_public_key(&[0x42u8; 64]).unwrap()
}

fn key_text() -> String {
    bs58::encode(secret()).into_string()
}

fn address_text() -> String {
    bs58::encode(receiver()).into_string()
}

#[test]
fn the_faucet_hands_out_a_fixed_amount_of_the_native_asset() {
    assert_eq!(FAUCET_AMOUNT, 100_000_000_000);
    assert_eq!(FAUCET_SYMBOL, "AMA");
}

#[test]
fn a_prepared_transfer_carries_the_packed_unit_in_its_url() {
    let prepared =
        prepare_transfer("https://node.example/", &key_text(), &address_text(), NOW_MS).unwrap();
    let unit =
        build_transfer_unit(&secret(), &receiver(), "AMA", 100_000_000_000, NOW_MS).unwrap();
    let packed = encode_txu(&unit);
    let expected = format!(
        "https://node.example/api/tx/submit/{}",
        bs58::encode(&packed).into_string()
    );
    assert_eq!(prepared.url, expected);
    assert_eq!(prepared.tx_hash, hex::encode(&unit.hash));
    assert_eq!(prepared.tx_hash.len(), 64);
    let carried = prepared.url.rsplit('/').next().unwrap();
    let sent = decode_txu(&bs58::decode(carried).into_vec().unwrap()).unwrap();
    assert_eq!(
        sent.tx.action.args,
        vec![receiver(), b"100000000000".to_vec(), b"AMA".to_vec()]
    );
}

#[test]
fn slashes_at_the_end_of_the_node_url_do_not_double() {
    let plain = prepare_transfer("https://node.example", &key_text(), &address_text(), NOW_MS)
        .unwrap();
    let one = prepare_transfer("https://node.example/", &key_text(), &address_text(), NOW_MS)
        .unwrap();
    let many = prepare_transfer("https://node.example///", &key_text(), &address_text(), NOW_MS)
        .unwrap();
    assert_eq!(plain.url, one.url);
    assert_eq!(plain.url, many.url);
    assert!(plain.url.starts_with("https://node.example/api/tx/submit/"));
}

#[test]
fn a_key_that_is_no_base58_is_invalid() {
    let r = prepare_transfer("https://node.example", "0OIl", &address_text(), NOW_MS);
    assert_eq!(r.unwrap_err(), TxError::Validation(Invalid::SecretEncoding));
    let r = prepare_transfer("https://node.example", "0OIl", "0OIl", NOW_MS);
    assert_eq!(r.unwrap_err(), TxError::Validation(Invalid::SecretEncoding));
}

#[test]
fn an_address_that_is_no_base58_is_invalid() {
    let r = prepare_transfer("https://node.example", &key_text(), "not base58!", NOW_MS);
    assert_eq!(r.unwrap_err(), TxError::Validation(Invalid::AddressEncoding));
}

#[test]
fn an_address_of_another_length_is_invalid() {
    let short = bs58::encode([9u8; 47]).into_string();
    let r = prepare_transfer("https://node.example", &key_text(), &short, NOW_MS);
    assert_eq!(r.unwrap_err(), TxError::Validation(Invalid::AddressLength));
    let r = prepare_transfer("https://node.example", &key_text(), "", NOW_MS);
    assert_eq!(r.unwrap_err(), TxError::Validation(Invalid::AddressLength));
}

#[test]
fn a_key_of_another_length_is_invalid() {
    let short = bs58::encode([9u8; 32]).into_string();
    let r = prepare_transfer("https://node.example", &short, &address_text(), NOW_MS);
    assert_eq!(r.unwrap_err(), TxError::Validation(Invalid::SecretLength));
}

#[test]
fn the_zero_key_is_a_crypto_error() {
    let zero = bs58::encode([0u8; 64]).into_string();
    let r = prepare_transfer("https://node.example", &zero, &address_text(), NOW_MS);
    assert_eq!(r.unwrap_err(), TxError::Crypto);
}

fn prepared() -> PreparedTransfer {
    PreparedTransfer { url: "https://node.example/x".to_string(), tx_hash: "ab12".to_string() }
}

#[test]
fn a_success_gives_the_identifier() {
    assert_eq!(conclude_transfer(prepared(), 200), Ok("ab12".to_string()));
    assert_eq!(conclude_transfer(prepared(), 204), Ok("ab12".to_string()));
    assert_eq!(conclude_transfer(prepared(), 299), Ok("ab12".to_string()));
}

#[test]
fn anything_else_is_a_network_error() {
    assert_eq!(conclude_transfer(prepared(), 199), Err(TxError::Network(199)));
    assert_eq!(conclude_transfer(prepared(), 300), Err(TxError::Network(300)));
    assert_eq!(conclude_transfer(prepared(), 404), Err(TxError::Network(404)));
    assert_eq!(conclude_transfer(prepared(), 500), Err(TxError::Network(500)));
    assert_eq!(conclude_transfer(prepared(), 0), Err(TxError::Network(0)));
}
