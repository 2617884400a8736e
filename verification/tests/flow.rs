use amadeus_mcp::error::{Invalid, Malformed, TxError};
use amadeus_mcp::flow::{
    advance, pending, status_is_success, Command, Event, Receipt, SignedTransaction, Submission,
    TransportResponse, UnsignedBlob,
};

fn unsigned() -> Submission {
    Submission::Unsigned(UnsignedBlob {
        blob: "blob".to_string(),
        signing_payload: "payload".to_string(),
        transaction_hash: "hash".to_string(),
    })
}

fn signed() -> Submission {
    Submission::Signed(SignedTransaction {
        transaction: "blob".to_string(),
        signature: "sig".to_string(),
    })
}

fn response(status: u16) -> TransportResponse {
    TransportResponse {
        status,
        has_error: false,
        transaction_hash: Some("hash".to_string()),
        accepted: true,
    }
}

#[test]
fn success_is_the_two_hundreds() {
    assert!(!status_is_success(199));
    assert!(status_is_success(200));
    assert!(status_is_success(299));
    assert!(!status_is_success(300));
    assert!(!status_is_success(0));
    assert!(!status_is_success(u16::MAX));
}

#[test]
fn each_state_asks_for_its_step() {
    assert_eq!(pending(&unsigned()), Command::AwaitSignature);
    assert_eq!(pending(&signed()), Command::Send);
    let done = Submission::Submitted(Receipt { transaction_hash: "h".to_string(), accepted: true });
    assert_eq!(pending(&done), Command::Finished);
}

#[test]
fn a_signature_makes_an_unsigned_transaction_signed() {
    match advance(unsigned(), Event::SignatureAttached("sig".to_string())) {
        Ok(Submission::Signed(s)) => {
            assert_eq!(s.transaction, "blob");
            assert_eq!(s.signature, "sig");
        }
        other => panic!("unexpected: {:?}", other),
    }
}

#[test]
fn an_empty_signature_is_no_signature() {
    let r = advance(unsigned(), Event::SignatureAttached(String::new()));
    assert_eq!(r.unwrap_err(), TxError::Validation(Invalid::MissingSignature));
}

#[test]
fn an_accepted_submission_ends_accepted() {
    match advance(signed(), Event::ResponseArrived(response(200))) {
        Ok(Submission::Submitted(receipt)) => {
            assert_eq!(receipt.transaction_hash, "hash");
            assert!(receipt.accepted);
        }
        other => panic!("unexpected: {:?}", other),
    }
}

#[test]
fn a_rejected_submission_ends_rejected() {
    let mut answer = response(201);
    answer.accepted = false;
    match advance(signed(), Event::ResponseArrived(answer)) {
        Ok(Submission::Submitted(receipt)) => {
            assert_eq!(receipt.transaction_hash, "hash");
            assert!(!receipt.accepted);
        }
        other => panic!("unexpected: {:?}", other),
    }
}

#[test]
fn a_failed_transport_is_a_network_error() {
    for status in [0u16, 199, 300, 400, 404, 500, 503] {
        let r = advance(signed(), Event::ResponseArrived(response(status)));
        assert_eq!(r.unwrap_err(), TxError::Network(status));
    }
    let mut answer = response(500);
    answer.has_error = true;
    answer.transaction_hash = None;
    let r = advance(signed(), Event::ResponseArrived(answer));
    assert_eq!(r.unwrap_err(), TxError::Network(500));
}

#[test]
fn an_error_in_the_answer_is_a_protocol_error() {
    let mut answer = response(200);
    answer.has_error = true;
    let r = advance(signed(), Event::ResponseArrived(answer));
    assert_eq!(r.unwrap_err(), TxError::Protocol(Malformed::Rejected));
}

#[test]
fn an_answer_without_identifier_is_a_protocol_error() {
    let mut answer = response(200);
    answer.transaction_hash = None;
    let r = advance(signed(), Event::ResponseArrived(answer));
    assert_eq!(r.unwrap_err(), TxError::Protocol(Malformed::MissingField));
}

#[test]
fn steps_out_of_order_are_refused() {
    let expected = TxError::Validation(Invalid::OutOfOrder);
    let r = advance(unsigned(), Event::ResponseArrived(response(200)));
    assert_eq!(r.unwrap_err(), expected);
    let r = advance(signed(), Event::SignatureAttached("again".to_string()));
    assert_eq!(r.unwrap_err(), expected);
    let done = Submission::Submitted(Receipt { transaction_hash: "h".to_string(), accepted: true });
    let r = advance(done.clone(), Event::ResponseArrived(response(200)));
    assert_eq!(r.unwrap_err(), expected);
    let r = advance(done, Event::SignatureAttached("sig".to_string()));
    assert_eq!(r.unwrap_err(), expected);
}
