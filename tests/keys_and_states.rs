use seeded_account::{
    lemma_advance_monotonic, on_report, poll_outcome, sign_and_verify, verify_signature,
    CreateError, Durability, KeyPair, NodeReport, PollStep, TxEvent, TxState,
};

#[test]
fn signature_verifies_under_own_address() {
    let key = KeyPair::generate();
    let sig = key.sign_message(b"hello");
    assert_eq!(sig.len(), 64);
    assert!(verify_signature(&key.address(), b"hello", &sig));
    let (sig2, ok) = sign_and_verify(&key, b"other message");
    assert!(ok);
    assert!(verify_signature(&key.address(), b"other message", &sig2));
}

#[test]
fn signature_fails_on_other_message_key_or_length() {
    let key = KeyPair::generate();
    let other = KeyPair::generate();
    let sig = key.sign_message(b"hello");
    assert!(!verify_signature(&key.address(), b"hellO", &sig));
    assert!(!verify_signature(&other.address(), b"hello", &sig));
    assert!(!verify_signature(&key.address(), b"hello", &sig[..63]));
}

#[test]
fn key_pair_from_bytes_reads_secret_then_public() {
    let outside = solana_sdk::signer::keypair::Keypair::new();
    let bytes = outside.to_bytes();
    let key = KeyPair::from_bytes(&bytes).unwrap();
    assert_eq!(key.address().bytes[..], bytes[32..]);
    assert!(KeyPair::from_bytes(&bytes[..63]).is_none());
    let mut longer = bytes.to_vec();
    longer.push(0);
    assert!(KeyPair::from_bytes(&longer).is_none());
    let mut mismatched = bytes;
    mismatched[32..].copy_from_slice(&solana_sdk::signer::keypair::Keypair::new().to_bytes()[32..]);
    assert!(KeyPair::from_bytes(&mismatched).is_none());
}

#[test]
fn durability_names_parse() {
    assert_eq!(Durability::from_name("processed"), Some(Durability::Processed));
    assert_eq!(Durability::from_name("confirmed"), Some(Durability::Confirmed));
    assert_eq!(Durability::from_name("finalized"), Some(Durability::Finalized));
    assert_eq!(Durability::from_name("Confirmed"), None);
    assert_eq!(Durability::from_name(""), None);
}

#[test]
fn durability_is_totally_ordered() {
    assert!(Durability::Finalized.at_least(&Durability::Confirmed));
    assert!(Durability::Confirmed.at_least(&Durability::Confirmed));
    assert!(!Durability::Processed.at_least(&Durability::Confirmed));
    assert_eq!(Durability::Finalized.rank_of(), 2);
}

#[test]
fn transaction_moves_forward_only() {
    let _ = lemma_advance_monotonic;
    let s = TxState::Built.advance(TxEvent::Sign).advance(TxEvent::Submit);
    assert_eq!(s, TxState::Submitted);
    let s = s.advance(TxEvent::Observe(Durability::Confirmed));
    assert_eq!(s, TxState::Landed(Durability::Confirmed));
    assert_eq!(s.advance(TxEvent::Observe(Durability::Processed)), s);
    assert_eq!(s.advance(TxEvent::Observe(Durability::Finalized)), TxState::Landed(Durability::Finalized));
    assert_eq!(TxState::Built.advance(TxEvent::Submit), TxState::Built);
}

#[test]
fn rejected_and_dropped_are_terminal() {
    let r = TxState::Submitted.advance(TxEvent::Reject);
    assert_eq!(r, TxState::Rejected);
    assert_eq!(r.advance(TxEvent::Observe(Durability::Finalized)), TxState::Rejected);
    let d = TxState::Submitted.advance(TxEvent::Expire);
    assert_eq!(d, TxState::Dropped);
    assert_eq!(d.advance(TxEvent::Submit), TxState::Dropped);
}

#[test]
fn polling_stops_at_target_durability() {
    assert!(matches!(on_report(NodeReport::Reached(Durability::Finalized), Durability::Confirmed, 3), PollStep::Done));
    assert!(matches!(on_report(NodeReport::Reached(Durability::Processed), Durability::Confirmed, 3), PollStep::Wait));
    assert!(matches!(on_report(NodeReport::Pending, Durability::Confirmed, 0), PollStep::Timeout));
}

#[test]
fn node_errors_surface_with_reason() {
    let r = on_report(NodeReport::Rejected("insufficient funds for rent".to_string()), Durability::Confirmed, 5);
    assert_eq!(
        poll_outcome(&r),
        Some(Err(CreateError::NodeRejected("insufficient funds for rent".to_string())))
    );
    let r = on_report(NodeReport::Rejected("account already in use".to_string()), Durability::Confirmed, 5);
    assert_eq!(poll_outcome(&r), Some(Err(CreateError::NodeRejected("account already in use".to_string()))));
    let r = on_report(NodeReport::Expired, Durability::Confirmed, 5);
    assert_eq!(poll_outcome(&r), Some(Err(CreateError::Dropped)));
    let r = on_report(NodeReport::Transport("refused".to_string()), Durability::Confirmed, 5);
    assert_eq!(poll_outcome(&r), Some(Err(CreateError::Network("refused".to_string()))));
    assert_eq!(poll_outcome(&PollStep::Wait), None);
    assert_eq!(poll_outcome(&PollStep::Done), Some(Ok(())));
    assert_eq!(poll_outcome(&PollStep::Timeout), Some(Err(CreateError::Timeout)));
}
