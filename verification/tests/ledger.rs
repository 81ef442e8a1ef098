use anypay_escrow::errors::EscrowError;
use anypay_escrow::records::IntentStatus;
use anypay_escrow::state::Contract;

fn s(text: &str) -> String {
    text.to_string()
}

fn methods() -> Vec<String> {
    vec![s("venmo::alice-tag")]
}

fn new_ledger() -> Contract {
    Contract::new(s("owner"), s("fees"))
}

fn seeded_deposit(c: &mut Contract) -> u64 {
    c.create_deposit(s("seller"), 7, s("USDC"), 1000, 10, 500, methods(), None)
        .unwrap()
}

#[test]
fn create_deposit_allocates_liquidity() {
    let mut c = new_ledger();
    let id = seeded_deposit(&mut c);
    assert_eq!(id, 1);
    let d = c.get_deposit(1).unwrap();
    assert_eq!(d.total_deposit, 1000);
    assert_eq!(d.remaining_deposits, 1000);
    assert_eq!(d.outstanding_intents, 0);
    assert_eq!(d.depositor, "seller");
}

#[test]
fn create_deposit_rejects_bad_input() {
    let mut c = new_ledger();
    assert_eq!(
        c.create_deposit(s("a"), 0, s("T"), 0, 10, 500, methods(), None),
        Err(EscrowError::ZeroAmount)
    );
    assert_eq!(
        c.create_deposit(s("a"), 0, s("T"), 100, 0, 500, methods(), None),
        Err(EscrowError::ZeroMinIntentAmount)
    );
    assert_eq!(
        c.create_deposit(s("a"), 0, s("T"), 100, 50, 20, methods(), None),
        Err(EscrowError::MinAboveMax)
    );
    assert_eq!(
        c.create_deposit(s("a"), 0, s("T"), 100, 10, 50, vec![], None),
        Err(EscrowError::NoPaymentMethods)
    );
    assert_eq!(
        c.create_deposit(s("a"), 0, s("T"), 100, 10, 50, vec![s("no-separator")], None),
        Err(EscrowError::MissingPlatformTag)
    );
    assert!(c.get_deposit(1).is_none());
}

#[test]
fn signal_and_cancel_round_trip() {
    let mut c = new_ledger();
    let id = seeded_deposit(&mut c);
    let hash = c
        .signal_intent(s("buyer"), 9, id, 400, s("venmo::alice-tag"), s("USD"),
            s("buyer-recipient"), s("BTC"))
        .unwrap();
    assert_eq!(hash, "intent:1");
    {
        let d = c.get_deposit(id).unwrap();
        assert_eq!(d.remaining_deposits, 600);
        assert_eq!(d.outstanding_intents, 400);
    }
    c.cancel_intent(s("buyer"), hash.clone()).unwrap();
    let d = c.get_deposit(id).unwrap();
    assert_eq!(d.remaining_deposits, 1000);
    assert_eq!(d.outstanding_intents, 0);
    let it = c.get_intent(&hash).unwrap();
    assert_eq!(it.status, IntentStatus::Cancelled);
}

#[test]
fn signal_checks_bounds_and_method() {
    let mut c = new_ledger();
    let id = seeded_deposit(&mut c);
    assert_eq!(
        c.signal_intent(s("b"), 0, 99, 100, s("venmo::alice-tag"), s("USD"), s("r"), s("BTC")),
        Err(EscrowError::DepositNotFound)
    );
    assert_eq!(
        c.signal_intent(s("b"), 0, id, 5, s("venmo::alice-tag"), s("USD"), s("r"), s("BTC")),
        Err(EscrowError::AmountBelowMinimum)
    );
    assert_eq!(
        c.signal_intent(s("b"), 0, id, 600, s("venmo::alice-tag"), s("USD"), s("r"), s("BTC")),
        Err(EscrowError::AmountAboveMaximum)
    );
    assert_eq!(
        c.signal_intent(s("b"), 0, id, 123, s("paypal::other"), s("USD"), s("r"), s("BTC")),
        Err(EscrowError::PaymentMethodNotSupported)
    );
    let d = c.get_deposit(id).unwrap();
    assert_eq!(d.remaining_deposits, 1000);
}

#[test]
fn insufficient_liquidity_is_rejected() {
    let mut c = new_ledger();
    let id = c
        .create_deposit(s("seller"), 7, s("USDC"), 300, 10, 500, methods(), None)
        .unwrap();
    c.signal_intent(s("b1"), 0, id, 200, s("venmo::alice-tag"), s("USD"), s("r"), s("BTC"))
        .unwrap();
    assert_eq!(
        c.signal_intent(s("b2"), 0, id, 200, s("venmo::alice-tag"), s("USD"), s("r"), s("BTC")),
        Err(EscrowError::InsufficientLiquidity)
    );
}

#[test]
fn intent_cap_blocks_the_next_signal() {
    let mut c = new_ledger();
    c.set_max_intents_per_deposit(s("owner"), 100).unwrap();
    let id = c
        .create_deposit(s("seller"), 7, s("USDC"), 100_000, 1, 500, methods(), None)
        .unwrap();
    for _ in 0..100 {
        c.signal_intent(s("buyer"), 0, id, 1, s("venmo::alice-tag"), s("USD"), s("r"),
            s("BTC"))
            .unwrap();
    }
    let before = c.get_deposit(id).unwrap().remaining_deposits;
    assert_eq!(
        c.signal_intent(s("buyer"), 0, id, 1, s("venmo::alice-tag"), s("USD"), s("r"),
            s("BTC")),
        Err(EscrowError::MaxIntentsReached)
    );
    assert_eq!(c.get_deposit(id).unwrap().remaining_deposits, before);
}

#[test]
fn fulfill_consumes_outstanding_liquidity() {
    let mut c = new_ledger();
    let id = seeded_deposit(&mut c);
    let hash = c
        .signal_intent(s("buyer"), 0, id, 250, s("venmo::alice-tag"), s("USD"),
            s("pay-to-buyer"), s("BTC"))
        .unwrap();
    let req = c.fulfill_intent(hash.clone()).unwrap();
    assert_eq!(req.amount, 250);
    assert_eq!(req.chain, "BTC");
    assert_eq!(req.recipient, "pay-to-buyer");
    let d = c.get_deposit(id).unwrap();
    assert_eq!(d.remaining_deposits, 750);
    assert_eq!(d.outstanding_intents, 0);
    assert_eq!(c.get_intent(&hash).unwrap().status, IntentStatus::Fulfilled);
}

#[test]
fn terminal_intent_cannot_transition_again() {
    let mut c = new_ledger();
    let id = seeded_deposit(&mut c);
    let hash = c
        .signal_intent(s("buyer"), 0, id, 100, s("venmo::alice-tag"), s("USD"), s("r"),
            s("BTC"))
        .unwrap();
    c.fulfill_intent(hash.clone()).unwrap();
    assert!(matches!(c.fulfill_intent(hash.clone()), Err(EscrowError::NotSignaled)));
    assert_eq!(c.cancel_intent(s("buyer"), hash.clone()), Err(EscrowError::NotSignaled));
    assert!(matches!(
        c.release_intent(s("seller"), hash.clone()),
        Err(EscrowError::NotSignaled)
    ));
    let d = c.get_deposit(id).unwrap();
    assert_eq!(d.remaining_deposits, 900);
    assert_eq!(d.outstanding_intents, 0);
}

#[test]
fn release_requires_the_manager() {
    let mut c = new_ledger();
    let id = seeded_deposit(&mut c);
    c.set_delegate(s("seller"), id, s("helper")).unwrap();
    let hash = c
        .signal_intent(s("buyer"), 0, id, 100, s("venmo::alice-tag"), s("USD"), s("r"),
            s("BTC"))
        .unwrap();
    assert!(matches!(
        c.release_intent(s("stranger"), hash.clone()),
        Err(EscrowError::NotManager)
    ));
    let req = c.release_intent(s("helper"), hash.clone()).unwrap();
    assert_eq!(req.amount, 100);
    assert_eq!(c.get_intent(&hash).unwrap().status, IntentStatus::Released);
}

#[test]
fn cancel_is_buyer_only() {
    let mut c = new_ledger();
    let id = seeded_deposit(&mut c);
    let hash = c
        .signal_intent(s("buyer"), 0, id, 100, s("venmo::alice-tag"), s("USD"), s("r"),
            s("BTC"))
        .unwrap();
    assert_eq!(c.cancel_intent(s("seller"), hash.clone()), Err(EscrowError::NotBuyer));
    assert_eq!(
        c.cancel_intent(s("buyer"), s("intent:99")),
        Err(EscrowError::IntentNotFound)
    );
}

#[test]
fn fulfill_with_proof_validates_the_payload() {
    let mut c = new_ledger();
    let id = seeded_deposit(&mut c);
    let hash = c
        .signal_intent(s("buyer"), 0, id, 100, s("venmo::alice-tag"), s("USD"), s("r"),
            s("BTC"))
        .unwrap();
    assert!(matches!(
        c.fulfill_intent_with_proof(hash.clone(), s("   ")),
        Err(EscrowError::EmptyProof)
    ));
    let huge = "x".repeat(8193);
    assert!(matches!(
        c.fulfill_intent_with_proof(hash.clone(), huge),
        Err(EscrowError::ProofTooLarge)
    ));
    assert_eq!(c.get_intent(&hash).unwrap().status, IntentStatus::Signaled);
    let req = c.fulfill_intent_with_proof(hash.clone(), s("opaque-proof-blob")).unwrap();
    assert_eq!(req.intent_hash, hash);
}

#[test]
fn withdraw_zeroes_remaining() {
    let mut c = new_ledger();
    let id = seeded_deposit(&mut c);
    assert_eq!(
        c.withdraw_deposit(s("stranger"), id),
        Err(EscrowError::NotManager)
    );
    let hash = c
        .signal_intent(s("buyer"), 0, id, 100, s("venmo::alice-tag"), s("USD"), s("r"),
            s("BTC"))
        .unwrap();
    assert_eq!(
        c.withdraw_deposit(s("seller"), id),
        Err(EscrowError::OutstandingIntents)
    );
    c.cancel_intent(s("buyer"), hash).unwrap();
    let freed = c.withdraw_deposit(s("seller"), id).unwrap();
    assert_eq!(freed, 1000);
    assert_eq!(c.get_deposit(id).unwrap().remaining_deposits, 0);
}

#[test]
fn delegate_is_set_by_depositor_only() {
    let mut c = new_ledger();
    let id = seeded_deposit(&mut c);
    assert_eq!(
        c.set_delegate(s("stranger"), id, s("helper")),
        Err(EscrowError::NotDepositor)
    );
    c.set_delegate(s("seller"), id, s("helper")).unwrap();
    assert_eq!(c.get_deposit(id).unwrap().delegate, Some(s("helper")));
}
