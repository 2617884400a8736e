//! The ways in which building, signing or submitting a transaction fails.

use vstd::prelude::*;
use crate::decimal::{as_text, decimal_digits, decimal_text};

verus! {

/// What was wrong with an input.
#[derive(Debug, Clone, Copy, PartialEq, Eq, Structural)]
pub enum Invalid {
    /// The secret key is not 64 bytes long.
    SecretLength,
    /// The address is not 48 bytes long.
    AddressLength,
    /// The secret key is not well-formed base58.
    SecretEncoding,
    /// The address is not well-formed base58.
    AddressEncoding,
    /// No signature was attached.
    MissingSignature,
    /// The step does not follow from the state the submission is in.
    OutOfOrder,
}

/// What was wrong with the answer of the remote node.
#[derive(Debug, Clone, Copy, PartialEq, Eq, Structural)]
pub enum Malformed {
    /// An expected field is missing from the answer.
    MissingField,
    /// The answer carries an error of the application.
    Rejected,
    /// The node knows nothing under the name that was asked for.
    NotFound,
}

/// The kind of failure under which a tool reports an error to its caller.
#[derive(Debug, Clone, Copy, PartialEq, Eq, Structural)]
pub enum ToolFailure {
    /// What was asked for does not exist.
    NotFound,
    /// The parameters of the call are invalid.
    InvalidParams,
    /// Anything else.
    Internal,
}

/// A failure of this library. Every failure is returned as a value.
#[derive(Debug, Clone, Copy, PartialEq, Eq, Structural)]
pub enum TxError {
    /// A key, an address or an argument has the wrong length or form.
    Validation(Invalid),
    /// Bytes do not encode a transaction.
    Encoding,
    /// The secret key is not usable for signing.
    Crypto,
    /// The transport answered with the given status, which is no success.
    Network(u16),
    /// The remote node's answer is not what the protocol asks for.
    Protocol(Malformed),
}

impl TxError {
    /// The words in which the failure is reported.
    pub open spec fn message_text(self) -> Seq<char> {
        match self {
            TxError::Validation(Invalid::SecretLength) => "secret key must be 64 bytes"@,
            TxError::Validation(Invalid::AddressLength) => "address must be 48 bytes"@,
            TxError::Validation(Invalid::SecretEncoding) => "invalid mint key encoding"@,
            TxError::Validation(Invalid::AddressEncoding) => "invalid address encoding"@,
            TxError::Validation(Invalid::MissingSignature) => "signature is missing"@,
            TxError::Validation(Invalid::OutOfOrder) => "step out of order"@,
            TxError::Encoding => "malformed transaction encoding"@,
            TxError::Crypto => "invalid secret key"@,
            TxError::Network(status) => "submit failed: "@ + as_text(
                decimal_digits(status as nat),
            ),
            TxError::Protocol(Malformed::MissingField) => "response misses a field"@,
            TxError::Protocol(Malformed::Rejected) => "response carries an error"@,
            TxError::Protocol(Malformed::NotFound) => "not found"@,
        }
    }

    /// The kind of failure under which a tool reports this error: invalid
    /// input as invalid parameters, an unknown name as not found, and all
    /// the rest as an internal error.
    pub open spec fn tool_failure_of(self) -> ToolFailure {
        match self {
            TxError::Validation(_) => ToolFailure::InvalidParams,
            TxError::Protocol(Malformed::NotFound) => ToolFailure::NotFound,
            _ => ToolFailure::Internal,
        }
    }

    /// The code under which a tool reports this error.
    pub open spec fn code_of(self) -> Seq<char> {
        match self.tool_failure_of() {
            ToolFailure::InvalidParams => "validation_failed"@,
            ToolFailure::NotFound => "account_not_found"@,
            ToolFailure::Internal => "blockchain_error"@,
        }
    }

    /// The kind of failure under which a tool reports this error.
    pub fn tool_failure(&self) -> (kind: ToolFailure)
        ensures
            kind == self.tool_failure_of(),
    {
        match self {
            TxError::Validation(_) => ToolFailure::InvalidParams,
            TxError::Protocol(Malformed::NotFound) => ToolFailure::NotFound,
            _ => ToolFailure::Internal,
        }
    }

    /// The code under which a tool reports this error.
    pub fn code(&self) -> (code: &'static str)
        ensures
            code@ == self.code_of(),
    {
        match self.tool_failure() {
            ToolFailure::InvalidParams => "validation_failed",
            ToolFailure::NotFound => "account_not_found",
            ToolFailure::Internal => "blockchain_error",
        }
    }

    /// The words in which the failure is reported.
    pub fn message(&self) -> (text: String)
        ensures
            text@ == self.message_text(),
    {
        match self {
            TxError::Validation(Invalid::SecretLength) => "secret key must be 64 bytes".to_owned(),
            TxError::Validation(Invalid::AddressLength) => "address must be 48 bytes".to_owned(),
            TxError::Validation(Invalid::SecretEncoding) => "invalid mint key encoding".to_owned(),
            TxError::Validation(Invalid::AddressEncoding) => "invalid address encoding".to_owned(),
            TxError::Validation(Invalid::MissingSignature) => "signature is missing".to_owned(),
            TxError::Validation(Invalid::OutOfOrder) => "step out of order".to_owned(),
            TxError::Encoding => "malformed transaction encoding".to_owned(),
            TxError::Crypto => "invalid secret key".to_owned(),
            TxError::Network(status) => {
                let digits = decimal_text(*status as u64);
                "submit failed: ".to_owned().concat(digits.as_str())
            },
            TxError::Protocol(Malformed::MissingField) => "response misses a field".to_owned(),
            TxError::Protocol(Malformed::Rejected) => "response carries an error".to_owned(),
            TxError::Protocol(Malformed::NotFound) => "not found".to_owned(),
        }
    }
}

} // verus!
