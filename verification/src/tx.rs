//! The transaction records and their mathematical views.

use vstd::prelude::*;
use crate::wire::contents;

verus! {

/// A call of a contract function, with an optional attached asset.
#[derive(Debug, Clone)]
pub struct TxAction {
    /// The arguments of the call, in the order the function takes them.
    pub args: Vec<Vec<u8>>,
    /// The contract that is called.
    pub contract: String,
    /// The function of the contract that is called.
    pub function: String,
    /// The kind of operation; always `"call"` in what this library builds.
    pub op: String,
    /// The symbol of the attached asset, if one is attached.
    pub attached_symbol: Option<Vec<u8>>,
    /// The amount of the attached asset, if one is attached.
    pub attached_amount: Option<Vec<u8>>,
}

/// A transaction: an action, the signer's nonce and the signer's public key.
#[derive(Debug, Clone)]
pub struct Tx {
    pub action: TxAction,
    pub nonce: i128,
    /// The compressed public key of the signer.
    pub signer: Vec<u8>,
}

/// A signed transaction, ready for submission.
#[derive(Debug, Clone)]
pub struct TxU {
    /// The digest of the canonical encoding of `tx`.
    pub hash: Vec<u8>,
    /// The signature over `hash`.
    pub signature: Vec<u8>,
    pub tx: Tx,
}

/// What a [`TxAction`] holds.
pub struct ActionView {
    pub args: Seq<Seq<u8>>,
    pub contract: Seq<char>,
    pub function: Seq<char>,
    pub op: Seq<char>,
    pub attached_symbol: Option<Seq<u8>>,
    pub attached_amount: Option<Seq<u8>>,
}

/// What a [`Tx`] holds.
pub struct TxView {
    pub action: ActionView,
    pub nonce: int,
    pub signer: Seq<u8>,
}

/// What a [`TxU`] holds.
pub struct TxUView {
    pub hash: Seq<u8>,
    pub signature: Seq<u8>,
    pub tx: TxView,
}

/// The bytes of an optional byte string.
pub open spec fn optional_bytes(value: Option<Vec<u8>>) -> Option<Seq<u8>> {
    match value {
        Some(bytes) => Some(bytes@),
        None => None,
    }
}

impl View for TxAction {
    type V = ActionView;

    open spec fn view(&self) -> ActionView {
        ActionView {
            args: contents(self.args@),
            contract: self.contract@,
            function: self.function@,
            op: self.op@,
            attached_symbol: optional_bytes(self.attached_symbol),
            attached_amount: optional_bytes(self.attached_amount),
        }
    }
}

impl View for Tx {
    type V = TxView;

    open spec fn view(&self) -> TxView {
        TxView { action: self.action@, nonce: self.nonce as int, signer: self.signer@ }
    }
}

impl View for TxU {
    type V = TxUView;

    open spec fn view(&self) -> TxUView {
        TxUView { hash: self.hash@, signature: self.signature@, tx: self.tx@ }
    }
}

} // verus!
