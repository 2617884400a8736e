//! The course of a submission: unsigned, signed, submitted.
//!
//! The steps that wait for the outside world (an outside signer, the
//! transport) are not taken here. The caller takes them and reports what
//! came of them as an [`Event`]; [`advance`] says in which state the
//! submission is afterwards. A failed step gives an error and no state: the
//! caller starts again from the build.

use vstd::prelude::*;
use crate::error::{Invalid, Malformed, TxError};

verus! {

/// A transaction that the remote node built and nobody has signed yet.
#[derive(Debug, Clone)]
pub struct UnsignedBlob {
    /// The bytes to submit, as the remote node wrote them.
    pub blob: String,
    /// The bytes to sign: the digest of the transaction.
    pub signing_payload: String,
    /// The identifier under which the transaction is shown.
    pub transaction_hash: String,
}

/// A transaction together with its signature.
#[derive(Debug, Clone)]
pub struct SignedTransaction {
    pub transaction: String,
    pub signature: String,
}

/// What the remote node said of a submitted transaction.
#[derive(Debug, Clone)]
pub struct Receipt {
    pub transaction_hash: String,
    /// Whether the node accepted the transaction.
    pub accepted: bool,
}

/// What the transport brought back from a submission.
#[derive(Debug, Clone)]
pub struct TransportResponse {
    /// The status of the transport.
    pub status: u16,
    /// Whether the answer carries an error of the application.
    pub has_error: bool,
    /// The identifier of the transaction, where the answer names one.
    pub transaction_hash: Option<String>,
    /// Whether the answer reports the transaction as accepted.
    pub accepted: bool,
}

/// The state of a submission.
#[derive(Debug, Clone)]
pub enum Submission {
    Unsigned(UnsignedBlob),
    Signed(SignedTransaction),
    Submitted(Receipt),
}

/// What happened outside since the last step.
#[derive(Debug, Clone)]
pub enum Event {
    /// An outside signer supplied a signature.
    SignatureAttached(String),
    /// The transport answered the submission.
    ResponseArrived(TransportResponse),
}

/// What the caller has to do next.
#[derive(Debug, Clone, Copy, PartialEq, Eq, Structural)]
pub enum Command {
    /// Have the signing payload signed.
    AwaitSignature,
    /// Hand the signed transaction to the transport.
    Send,
    /// Nothing: the submission has ended.
    Finished,
}

/// What a [`Submission`] holds.
pub enum SubmissionView {
    Unsigned { blob: Seq<char>, signing_payload: Seq<char>, transaction_hash: Seq<char> },
    Signed { transaction: Seq<char>, signature: Seq<char> },
    Submitted { transaction_hash: Seq<char>, accepted: bool },
}

/// What an [`Event`] holds.
pub enum EventView {
    SignatureAttached { signature: Seq<char> },
    ResponseArrived {
        status: u16,
        has_error: bool,
        transaction_hash: Option<Seq<char>>,
        accepted: bool,
    },
}

impl View for Submission {
    type V = SubmissionView;

    open spec fn view(&self) -> SubmissionView {
        match self {
            Submission::Unsigned(b) => SubmissionView::Unsigned {
                blob: b.blob@,
                signing_payload: b.signing_payload@,
                transaction_hash: b.transaction_hash@,
            },
            Submission::Signed(s) => SubmissionView::Signed {
                transaction: s.transaction@,
                signature: s.signature@,
            },
            Submission::Submitted(r) => SubmissionView::Submitted {
                transaction_hash: r.transaction_hash@,
                accepted: r.accepted,
            },
        }
    }
}

impl View for Event {
    type V = EventView;

    open spec fn view(&self) -> EventView {
        match self {
            Event::SignatureAttached(signature) => EventView::SignatureAttached {
                signature: signature@,
            },
            Event::ResponseArrived(r) => EventView::ResponseArrived {
                status: r.status,
                has_error: r.has_error,
                transaction_hash: match r.transaction_hash {
                    Some(hash) => Some(hash@),
                    None => None,
                },
                accepted: r.accepted,
            },
        }
    }
}

/// Whether a transport status reports success.
pub open spec fn is_success(status: u16) -> bool {
    200 <= status < 300
}

/// The state after `event`, or the error with which the submission ends.
///
/// A signature takes an unsigned transaction to a signed one; the signature
/// is not checked here. An answer of the transport takes a signed
/// transaction to a submitted one, unless the status is no success or the
/// answer carries an error or names no transaction. Nothing leads out of
/// the submitted state, and no other step is in order.
pub open spec fn next_state(state: SubmissionView, event: EventView) -> Result<
    SubmissionView,
    TxError,
> {
    match (state, event) {
        (
            SubmissionView::Unsigned { blob, .. },
            EventView::SignatureAttached { signature },
        ) => if signature.len() == 0 {
            Err(TxError::Validation(Invalid::MissingSignature))
        } else {
            Ok(SubmissionView::Signed { transaction: blob, signature })
        },
        (
            SubmissionView::Signed { .. },
            EventView::ResponseArrived { status, has_error, transaction_hash, accepted },
        ) => if !is_success(status) {
            Err(TxError::Network(status))
        } else if has_error {
            Err(TxError::Protocol(Malformed::Rejected))
        } else {
            match transaction_hash {
                Some(hash) => Ok(SubmissionView::Submitted { transaction_hash: hash, accepted }),
                None => Err(TxError::Protocol(Malformed::MissingField)),
            }
        },
        _ => Err(TxError::Validation(Invalid::OutOfOrder)),
    }
}

/// What the caller has to do in `state`.
pub open spec fn command_for(state: SubmissionView) -> Command {
    match state {
        SubmissionView::Unsigned { .. } => Command::AwaitSignature,
        SubmissionView::Signed { .. } => Command::Send,
        SubmissionView::Submitted { .. } => Command::Finished,
    }
}

/// Whether `status` reports success.
pub fn status_is_success(status: u16) -> (ok: bool)
    ensures
        ok == is_success(status),
{
    200 <= status && status < 300
}

/// Takes the submission one step further. The old state is used up: after a
/// failure nothing of it is left to the caller.
pub fn advance(state: Submission, event: Event) -> (r: Result<Submission, TxError>)
    ensures
        match next_state(state@, event@) {
            Ok(next) => r matches Ok(reached) && reached@ == next,
            Err(e) => r matches Err(f) && f == e,
        },
{
    match state {
        Submission::Unsigned(unsigned) => match event {
            Event::SignatureAttached(signature) => {
                if signature.as_str().is_empty() {
                    Err(TxError::Validation(Invalid::MissingSignature))
                } else {
                    Ok(
                        Submission::Signed(
                            SignedTransaction { transaction: unsigned.blob, signature },
                        ),
                    )
                }
            },
            Event::ResponseArrived(_) => Err(TxError::Validation(Invalid::OutOfOrder)),
        },
        Submission::Signed(_) => match event {
            Event::ResponseArrived(response) => {
                if !status_is_success(response.status) {
                    Err(TxError::Network(response.status))
                } else if response.has_error {
                    Err(TxError::Protocol(Malformed::Rejected))
                } else {
                    match response.transaction_hash {
                        Some(transaction_hash) => Ok(
                            Submission::Submitted(
                                Receipt { transaction_hash, accepted: response.accepted },
                            ),
                        ),
                        None => Err(TxError::Protocol(Malformed::MissingField)),
                    }
                }
            },
            Event::SignatureAttached(_) => Err(TxError::Validation(Invalid::OutOfOrder)),
        },
        Submission::Submitted(_) => Err(TxError::Validation(Invalid::OutOfOrder)),
    }
}

/// What the caller has to do next.
pub fn pending(state: &Submission) -> (command: Command)
    ensures
        command == command_for(state@),
{
    match state {
        Submission::Unsigned(_) => Command::AwaitSignature,
        Submission::Signed(_) => Command::Send,
        Submission::Submitted(_) => Command::Finished,
    }
}

/// A transport answer that is no success ends a signed submission in a
/// network error that names the status, whatever else the answer holds. No
/// state comes out of the step.
pub proof fn lemma_failed_transport_is_network_error(state: SubmissionView, event: EventView)
    requires
        state is Signed,
        event is ResponseArrived,
        !is_success(event->status),
    ensures
        next_state(state, event) == Err::<SubmissionView, TxError>(
            TxError::Network(event->status),
        ),
{
}

/// The states follow one another in one order: a step from an unsigned
/// transaction reaches a signed one, a step from a signed one a submitted
/// one, and no step leaves the submitted state.
pub proof fn lemma_steps_in_order(state: SubmissionView, event: EventView)
    ensures
        match next_state(state, event) {
            Ok(next) => (state is Unsigned && next is Signed) || (state is Signed
                && next is Submitted),
            Err(_) => true,
        },
        state is Submitted ==> next_state(state, event) is Err,
{
}

/// A signature is attached as it comes: the signed state holds the
/// transaction of the unsigned one and the very signature supplied.
pub proof fn lemma_signature_is_taken_as_is(state: SubmissionView, signature: Seq<char>)
    requires
        state is Unsigned,
        signature.len() > 0,
    ensures
        next_state(state, EventView::SignatureAttached { signature }) == Ok::<
            SubmissionView,
            TxError,
        >(SubmissionView::Signed { transaction: state->blob, signature }),
{
}

} // verus!
