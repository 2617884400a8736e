//! The client of the remote node: where each request goes, and what a
//! transport status means. Sending the request is the caller's part.

use vstd::prelude::*;
use crate::decimal::{as_text, decimal_digits, decimal_text};
use crate::endpoint::{trim_trailing_slashes, trimmed};
use vstd::utf8::{encode_utf8, encode_utf8_decode_utf8};
use crate::error::{Malformed, TxError};
use crate::flow::{is_success, status_is_success};
use crate::wire::same_bytes;

verus! {

/// The path under which the node builds an unsigned transaction.
pub const BUILD_PATH: &'static str = "/api/v1/tx/build";

/// The path under which the node takes a signed transaction.
pub const SUBMIT_PATH: &'static str = "/api/v1/tx/submit";

/// The path of the chain statistics.
pub const STATS_PATH: &'static str = "/api/chain/stats";

/// The path of the list of validators.
pub const VALIDATORS_PATH: &'static str = "/api/peer/trainers";

/// A client of the node at a base URL.
#[derive(Debug, Clone)]
pub struct BlockchainClient {
    base_url: String,
}

impl View for BlockchainClient {
    type V = Seq<char>;

    /// The base URL, which never ends in a slash.
    closed spec fn view(&self) -> Seq<char> {
        self.base_url@
    }
}

/// `path` with one more query parameter, where `value` is there: behind a
/// question mark if it is the first parameter, behind an ampersand if not.
pub open spec fn with_param(
    path: Seq<char>,
    first: bool,
    name: Seq<char>,
    value: Option<Seq<char>>,
) -> Seq<char> {
    match value {
        Some(v) => path + (if first { "?"@ } else { "&"@ }) + name + "="@ + v,
        None => path,
    }
}

/// The decimal text of an optional number.
pub open spec fn optional_number(value: Option<u32>) -> Option<Seq<char>> {
    match value {
        Some(n) => Some(as_text(decimal_digits(n as nat))),
        None => None,
    }
}

/// The view of an optional text.
pub open spec fn optional_text(value: Option<&str>) -> Option<Seq<char>> {
    match value {
        Some(text) => Some(text@),
        None => None,
    }
}

/// The path of the balances of `address`.
pub open spec fn balance_path_of(address: Seq<char>) -> Seq<char> {
    "/api/wallet/balance_all/"@ + address
}

/// The path of the entries at `height`.
pub open spec fn block_path_of(height: u64) -> Seq<char> {
    "/api/chain/height/"@ + as_text(decimal_digits(height as nat))
}

/// The path of the transaction `tx_hash`.
pub open spec fn transaction_path_of(tx_hash: Seq<char>) -> Seq<char> {
    "/api/chain/tx/"@ + tx_hash
}

/// The path of the value under `key` in the storage of `contract`.
pub open spec fn contract_state_path_of(contract: Seq<char>, key: Seq<char>) -> Seq<char> {
    "/api/contract/get/"@ + contract + "/"@ + key
}

/// The path of the transactions of `address`, with the query parameters
/// that are there, in the order limit, offset, sort.
pub open spec fn history_path_of(
    address: Seq<char>,
    limit: Option<u32>,
    offset: Option<u32>,
    sort: Option<Seq<char>>,
) -> Seq<char> {
    let base = "/api/chain/tx_events_by_account/"@ + address;
    let with_limit = with_param(base, true, "limit"@, optional_number(limit));
    let with_offset = with_param(with_limit, limit is None, "offset"@, optional_number(offset));
    with_param(with_offset, limit is None && offset is None, "sort"@, sort)
}

/// Appends one query parameter to `path`, where `value` is there.
fn push_param(path: &mut String, first: bool, name: &str, value: Option<&str>)
    ensures
        final(path)@ == with_param(old(path)@, first, name@, optional_text(value)),
{
    match value {
        Some(v) => {
            path.append(if first { "?" } else { "&" });
            path.append(name);
            path.append("=");
            path.append(v);
        },
        None => {},
    }
}

impl BlockchainClient {
    /// A client of the node at `base_url`. Slashes at the end of the URL are
    /// dropped, so that paths can be appended as they are.
    pub fn new(base_url: String) -> (r: Result<BlockchainClient, TxError>)
        ensures
            r matches Ok(client) && client@ == trimmed(base_url@),
    {
        Ok(BlockchainClient { base_url: trim_trailing_slashes(base_url.as_str()) })
    }

    /// The base URL of the node.
    pub fn base_url(&self) -> (url: &str)
        ensures
            url@ == self@,
    {
        self.base_url.as_str()
    }

    /// The URL of `path` at this node.
    pub fn url(&self, path: &str) -> (url: String)
        ensures
            url@ == self@ + path@,
    {
        self.base_url.clone().concat(path)
    }
}

/// The path of the balances of `address`.
pub fn balance_path(address: &str) -> (path: String)
    ensures
        path@ == balance_path_of(address@),
{
    "/api/wallet/balance_all/".to_owned().concat(address)
}

/// The path of the entries at `height`.
pub fn block_path(height: u64) -> (path: String)
    ensures
        path@ == block_path_of(height),
{
    "/api/chain/height/".to_owned().concat(decimal_text(height).as_str())
}

/// The path of the transaction `tx_hash`.
pub fn transaction_path(tx_hash: &str) -> (path: String)
    ensures
        path@ == transaction_path_of(tx_hash@),
{
    "/api/chain/tx/".to_owned().concat(tx_hash)
}

/// The path of the value under `key` in the storage of `contract`.
pub fn contract_state_path(contract: &str, key: &str) -> (path: String)
    ensures
        path@ == contract_state_path_of(contract@, key@),
{
    "/api/contract/get/".to_owned().concat(contract).concat("/").concat(key)
}

/// The path of the transactions of `address`, with the query parameters
/// that are there.
pub fn history_path(address: &str, limit: Option<u32>, offset: Option<u32>, sort: Option<&str>) -> (path:
    String)
    ensures
        path@ == history_path_of(address@, limit, offset, optional_text(sort)),
{
    let mut path = "/api/chain/tx_events_by_account/".to_owned().concat(address);
    match limit {
        Some(n) => {
            let digits = decimal_text(n as u64);
            push_param(&mut path, true, "limit", Some(digits.as_str()));
        },
        None => {},
    }
    match offset {
        Some(n) => {
            let digits = decimal_text(n as u64);
            push_param(&mut path, limit.is_none(), "offset", Some(digits.as_str()));
        },
        None => {},
    }
    push_param(&mut path, limit.is_none() && offset.is_none(), "sort", sort);
    path
}

/// Whether `a` and `b` are the same text.
pub fn same_text(a: &str, b: &str) -> (same: bool)
    ensures
        same == (a@ == b@),
{
    proof {
        encode_utf8_decode_utf8(a@);
        encode_utf8_decode_utf8(b@);
    }
    same_bytes(a.as_bytes(), b.as_bytes())
}

/// What the answer to a balance query comes to. The node marks a good
/// answer with the error field `"ok"`; any other answer means that it does
/// not know the account. A good answer has to bring the balances.
pub open spec fn balance_answer_of(error: Option<Seq<char>>, has_balances: bool) -> Result<
    (),
    TxError,
> {
    if error != Some("ok"@) {
        Err(TxError::Protocol(Malformed::NotFound))
    } else if !has_balances {
        Err(TxError::Protocol(Malformed::MissingField))
    } else {
        Ok(())
    }
}

/// What the answer to a transaction query comes to. The node marks an
/// unknown transaction with the error field `"not_found"`; any other answer
/// has to bring the transaction.
pub open spec fn transaction_answer_of(error: Option<Seq<char>>, has_transaction: bool) -> Result<
    (),
    TxError,
> {
    if error == Some("not_found"@) {
        Err(TxError::Protocol(Malformed::NotFound))
    } else if !has_transaction {
        Err(TxError::Protocol(Malformed::MissingField))
    } else {
        Ok(())
    }
}

/// What the answer to a balance query comes to, given its error field and
/// whether it brings the balances.
pub fn balance_answer(error: Option<&str>, has_balances: bool) -> (r: Result<(), TxError>)
    ensures
        r == balance_answer_of(optional_text(error), has_balances),
{
    let ok = match error {
        Some(text) => same_text(text, "ok"),
        None => false,
    };
    if !ok {
        Err(TxError::Protocol(Malformed::NotFound))
    } else if !has_balances {
        Err(TxError::Protocol(Malformed::MissingField))
    } else {
        Ok(())
    }
}

/// What the answer to a transaction query comes to, given its error field
/// and whether it brings the transaction.
pub fn transaction_answer(error: Option<&str>, has_transaction: bool) -> (r: Result<(), TxError>)
    ensures
        r == transaction_answer_of(optional_text(error), has_transaction),
{
    let unknown = match error {
        Some(text) => same_text(text, "not_found"),
        None => false,
    };
    if unknown {
        Err(TxError::Protocol(Malformed::NotFound))
    } else if !has_transaction {
        Err(TxError::Protocol(Malformed::MissingField))
    } else {
        Ok(())
    }
}

/// What an answer comes to that has to bring one field: a protocol error
/// where the field is missing.
pub fn field_answer(present: bool) -> (r: Result<(), TxError>)
    ensures
        present ==> r is Ok,
        !present ==> r == Err::<(), TxError>(TxError::Protocol(Malformed::MissingField)),
{
    if present {
        Ok(())
    } else {
        Err(TxError::Protocol(Malformed::MissingField))
    }
}

/// What a transport status means for a request: nothing to report after a
/// success, a network error that names the status after anything else.
pub fn check_status(status: u16) -> (r: Result<(), TxError>)
    ensures
        is_success(status) ==> r is Ok,
        !is_success(status) ==> r == Err::<(), TxError>(TxError::Network(status)),
{
    if status_is_success(status) {
        Ok(())
    } else {
        Err(TxError::Network(status))
    }
}

} // verus!
