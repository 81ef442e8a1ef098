use anypay_escrow::errors::EscrowError;
use anypay_escrow::records::FundingStatus;
use anypay_escrow::state::{Contract, DEFAULT_V2_STORAGE_FEE_YOCTO};

fn s(text: &str) -> String {
    text.to_string()
}

fn methods() -> Vec<String> {
    vec![s("venmo::seller-tag")]
}

const HOUR_MS: u64 = 3_600_000;
const FEE: u128 = DEFAULT_V2_STORAGE_FEE_YOCTO;

fn new_ledger() -> Contract {
    let mut c = Contract::new(s("owner"), s("fees"));
    c.set_oracle_account_id(s("owner"), s("oracle")).unwrap();
    c
}

fn registered(c: &mut Contract) -> u64 {
    c.register_deposit_intent_v2(s("seller"), FEE, 1, 1_000, s("BTC"), 1_000, 10, 500,
        methods(), None, s("refund-address"))
        .unwrap()
}

#[test]
fn register_validates_and_starts_awaiting() {
    let mut c = new_ledger();
    assert_eq!(
        c.register_deposit_intent_v2(s("seller"), FEE - 1, 1, 1_000, s("BTC"), 1_000, 10,
            500, methods(), None, s("refund")),
        Err(EscrowError::BelowStorageFee)
    );
    assert_eq!(
        c.register_deposit_intent_v2(s("seller"), FEE, 1, 1_000, s("  "), 1_000, 10, 500,
            methods(), None, s("refund")),
        Err(EscrowError::BlankAssetId)
    );
    assert_eq!(
        c.register_deposit_intent_v2(s("seller"), FEE, 1, 1_000, s("BTC"), 1_000, 10, 500,
            methods(), None, s(" ")),
        Err(EscrowError::BlankRefundTo)
    );
    let id = registered(&mut c);
    let d = c.get_deposit(id).unwrap();
    assert_eq!(d.remaining_deposits, 0);
    assert_eq!(d.total_deposit, 1_000);
    let m = c.get_deposit_funding_v2(id).unwrap();
    assert_eq!(m.status, FundingStatus::AwaitingFunding);
    assert_eq!(m.quote_generation, 0);
    assert_eq!(m.funding_started_at_ms, 0);
}

#[test]
fn unfunded_listing_rejects_intents() {
    let mut c = new_ledger();
    let id = registered(&mut c);
    assert_eq!(
        c.signal_intent(s("buyer"), 0, id, 100, s("venmo::seller-tag"), s("USD"), s("r"),
            s("BTC")),
        Err(EscrowError::ListingNotFunded)
    );
}

#[test]
fn quote_starts_the_window_and_rotates() {
    let mut c = new_ledger();
    let id = registered(&mut c);
    assert_eq!(
        c.oracle_set_quote_v2(s("stranger"), 10_000, id, s("q1"), s("addr1"), None, 99_000),
        Err(EscrowError::NotOracle)
    );
    c.oracle_set_quote_v2(s("oracle"), 10_000, id, s("q1"), s("addr1"),
        Some(s("  memo-1  ")), 99_000)
        .unwrap();
    let m = c.get_deposit_funding_v2(id).unwrap();
    assert_eq!(m.quote_id, Some(s("q1")));
    assert_eq!(m.deposit_address, Some(s("addr1")));
    assert_eq!(m.deposit_memo, Some(s("memo-1")));
    assert_eq!(m.quote_generation, 1);
    assert_eq!(m.funding_started_at_ms, 10_000);
    assert_eq!(m.topup_deadline_at_ms, 10_000 + 3 * HOUR_MS);
    assert_eq!(m.last_intents_status, Some(s("PENDING_DEPOSIT")));
}

#[test]
fn confirmed_funding_rebases_and_lists() {
    let mut c = new_ledger();
    let id = registered(&mut c);
    c.oracle_set_quote_v2(s("oracle"), 10_000, id, s("q1"), s("addr1"), None, 99_000)
        .unwrap();
    c.oracle_confirm_funding_v2(s("oracle"), 20_000, id, s("q1"), 800, s("tx-hash-1"),
        s("COMPLETED"))
        .unwrap();
    let d = c.get_deposit(id).unwrap();
    assert_eq!(d.total_deposit, 800);
    assert_eq!(d.remaining_deposits, 800);
    assert_eq!(d.max_intent_amount, 500);
    let m = c.get_deposit_funding_v2(id).unwrap();
    assert_eq!(m.status, FundingStatus::Funded);
    assert_eq!(m.funded_amount, 800);
    assert_eq!(m.origin_tx_hash, Some(s("tx-hash-1")));
    let page = c.get_open_deposits_by_asset_v2(&s("BTC"), None, None);
    assert_eq!(page.len(), 1);
    assert_eq!(page[0].deposit_id, id);
    assert_eq!(page[0].remaining_deposits, 800);
    assert_eq!(
        c.signal_intent(s("buyer"), 0, id, 900, s("venmo::seller-tag"), s("USD"), s("r"),
            s("BTC")),
        Err(EscrowError::AmountAboveMaximum)
    );
}

#[test]
fn funded_amount_clamps_the_intent_bounds() {
    let mut c = new_ledger();
    let id = c
        .register_deposit_intent_v2(s("seller"), FEE, 1, 1_000, s("BTC"), 10_000, 600, 900,
            methods(), None, s("refund-address"))
        .unwrap();
    c.oracle_set_quote_v2(s("oracle"), 10_000, id, s("q1"), s("addr1"), None, 99_000)
        .unwrap();
    c.oracle_confirm_funding_v2(s("oracle"), 20_000, id, s("q1"), 500, s("tx"), s("OK"))
        .unwrap();
    let d = c.get_deposit(id).unwrap();
    assert_eq!(d.min_intent_amount, 500);
    assert_eq!(d.max_intent_amount, 500);
}

#[test]
fn confirm_is_idempotent() {
    let mut c = new_ledger();
    let id = registered(&mut c);
    c.oracle_set_quote_v2(s("oracle"), 10_000, id, s("q1"), s("addr1"), None, 99_000)
        .unwrap();
    c.oracle_confirm_funding_v2(s("oracle"), 20_000, id, s("q1"), 800, s("tx"), s("OK"))
        .unwrap();
    let before_updated = c.get_deposit_funding_v2(id).unwrap().updated_at_ms;
    let r = c.oracle_confirm_funding_v2(s("oracle"), 30_000, id, s("q1"), 800, s("tx"),
        s("OK"));
    assert_eq!(r, Ok(()));
    let m = c.get_deposit_funding_v2(id).unwrap();
    assert_eq!(m.status, FundingStatus::Funded);
    assert_eq!(m.funded_amount, 800);
    assert_eq!(m.updated_at_ms, before_updated);
    assert_eq!(c.get_deposit(id).unwrap().remaining_deposits, 800);
}

#[test]
fn late_quote_expires_the_workflow() {
    let mut c = new_ledger();
    let id = registered(&mut c);
    c.oracle_set_quote_v2(s("oracle"), 10_000, id, s("q1"), s("addr1"), None, 99_000)
        .unwrap();
    let deadline = c.get_deposit_funding_v2(id).unwrap().topup_deadline_at_ms;
    let r = c.oracle_set_quote_v2(s("oracle"), deadline + 1, id, s("q2"), s("addr2"), None,
        999_000);
    assert_eq!(r, Ok(()));
    let m = c.get_deposit_funding_v2(id).unwrap();
    assert_eq!(m.status, FundingStatus::TopUpExpired);
    assert!(c.get_open_deposits_by_asset_v2(&s("BTC"), None, None).is_empty());
    let r2 = c.oracle_confirm_funding_v2(s("oracle"), deadline + 2, id, s("q2"), 800,
        s("tx"), s("OK"));
    assert_eq!(r2, Err(EscrowError::NotAwaitingFunding));
    assert_eq!(
        c.get_deposit_funding_v2(id).unwrap().status,
        FundingStatus::TopUpExpired
    );
}

#[test]
fn confirm_is_fenced_by_window_and_quote() {
    let mut c = new_ledger();
    let id = registered(&mut c);
    assert_eq!(
        c.oracle_confirm_funding_v2(s("oracle"), 10_000, id, s("q1"), 800, s("tx"), s("OK")),
        Err(EscrowError::FundingWindowNotStarted)
    );
    c.oracle_set_quote_v2(s("oracle"), 10_000, id, s("q1"), s("addr1"), None, 99_000)
        .unwrap();
    let deadline = c.get_deposit_funding_v2(id).unwrap().topup_deadline_at_ms;
    assert_eq!(
        c.oracle_confirm_funding_v2(s("oracle"), 20_000, id, s("stale"), 800, s("tx"),
            s("OK")),
        Err(EscrowError::StaleQuote)
    );
    assert_eq!(
        c.oracle_confirm_funding_v2(s("oracle"), deadline + 1, id, s("q1"), 800, s("tx"),
            s("OK")),
        Err(EscrowError::TopUpDeadlinePassed)
    );
}

#[test]
fn quote_rotations_are_bounded() {
    let mut c = new_ledger();
    c.set_max_quote_rotations(s("owner"), 2).unwrap();
    let id = registered(&mut c);
    c.oracle_set_quote_v2(s("oracle"), 10_000, id, s("q1"), s("a1"), None, 50_000).unwrap();
    c.oracle_set_quote_v2(s("oracle"), 11_000, id, s("q2"), s("a2"), None, 51_000).unwrap();
    assert_eq!(
        c.oracle_set_quote_v2(s("oracle"), 12_000, id, s("q3"), s("a3"), None, 52_000),
        Err(EscrowError::MaxQuoteRotationsReached)
    );
    assert_eq!(c.get_deposit_funding_v2(id).unwrap().quote_generation, 2);
}

#[test]
fn stale_oracle_signals_are_silent() {
    let mut c = new_ledger();
    let id = registered(&mut c);
    c.oracle_set_quote_v2(s("oracle"), 10_000, id, s("q1"), s("addr1"), None, 99_000)
        .unwrap();
    let r = c.oracle_mark_failed_v2(s("oracle"), 20_000, id, s("other-quote"), s("ERR"),
        s("mismatch"));
    assert_eq!(r, Ok(()));
    assert_eq!(
        c.get_deposit_funding_v2(id).unwrap().status,
        FundingStatus::AwaitingFunding
    );
    c.oracle_mark_failed_v2(s("oracle"), 20_000, id, s("q1"), s("ERR"), s("gone wrong"))
        .unwrap();
    let m = c.get_deposit_funding_v2(id).unwrap();
    assert_eq!(m.status, FundingStatus::Failed);
    assert_eq!(m.failure_reason, Some(s("gone wrong")));
    let again = c.oracle_mark_topup_expired_v2(s("oracle"), 21_000, id, s("q1"), s("late"));
    assert_eq!(again, Ok(()));
    assert_eq!(c.get_deposit_funding_v2(id).unwrap().status, FundingStatus::Failed);
}

#[test]
fn quote_expiry_clears_the_active_quote() {
    let mut c = new_ledger();
    let id = registered(&mut c);
    c.oracle_set_quote_v2(s("oracle"), 10_000, id, s("q1"), s("addr1"), None, 99_000)
        .unwrap();
    c.oracle_mark_quote_expired_v2(s("oracle"), 20_000, id, s("q1")).unwrap();
    let m = c.get_deposit_funding_v2(id).unwrap();
    assert_eq!(m.quote_id, None);
    assert_eq!(m.deposit_address, None);
    assert_eq!(m.quote_expires_at_ms, 0);
    assert_eq!(m.last_intents_status, Some(s("QUOTE_EXPIRED")));
    assert_eq!(m.status, FundingStatus::AwaitingFunding);
    let deadline = m.topup_deadline_at_ms;
    c.oracle_set_quote_v2(s("oracle"), 20_500, id, s("q2"), s("addr2"), None, 99_000)
        .unwrap();
    c.oracle_mark_quote_expired_v2(s("oracle"), deadline + 5, id, s("q2")).unwrap();
    assert_eq!(
        c.get_deposit_funding_v2(id).unwrap().status,
        FundingStatus::TopUpExpired
    );
}

#[test]
fn seller_cancels_while_awaiting() {
    let mut c = new_ledger();
    let id = registered(&mut c);
    assert_eq!(
        c.cancel_deposit_intent_v2(s("stranger"), 5_000, id),
        Err(EscrowError::NotManager)
    );
    c.cancel_deposit_intent_v2(s("seller"), 5_000, id).unwrap();
    let m = c.get_deposit_funding_v2(id).unwrap();
    assert_eq!(m.status, FundingStatus::Cancelled);
    assert_eq!(m.failure_reason, Some(s("Cancelled by seller")));
    assert_eq!(
        c.cancel_deposit_intent_v2(s("seller"), 6_000, id),
        Err(EscrowError::NotCancelable)
    );
}

#[test]
fn funded_listing_leaves_the_index_when_exhausted() {
    let mut c = new_ledger();
    let id = registered(&mut c);
    c.oracle_set_quote_v2(s("oracle"), 10_000, id, s("q1"), s("addr1"), None, 99_000)
        .unwrap();
    c.oracle_confirm_funding_v2(s("oracle"), 20_000, id, s("q1"), 400, s("tx"), s("OK"))
        .unwrap();
    assert_eq!(c.get_open_deposits_by_asset_v2(&s("BTC"), None, None).len(), 1);
    c.signal_intent(s("buyer"), 0, id, 400, s("venmo::seller-tag"), s("USD"), s("r"),
        s("BTC"))
        .unwrap();
    assert!(c.get_open_deposits_by_asset_v2(&s("BTC"), None, None).is_empty());
    c.cancel_intent(s("buyer"), s("intent:1")).unwrap();
    assert_eq!(c.get_open_deposits_by_asset_v2(&s("BTC"), None, None).len(), 1);
}

#[test]
fn status_scan_pages_through_matches() {
    let mut c = new_ledger();
    let a = registered(&mut c);
    let b = registered(&mut c);
    let d = registered(&mut c);
    c.cancel_deposit_intent_v2(s("seller"), 1_000, b).unwrap();
    let awaiting = c.get_deposits_by_funding_status_v2(FundingStatus::AwaitingFunding, None,
        None);
    assert_eq!(awaiting, vec![a, d]);
    let cancelled = c.get_deposits_by_funding_status_v2(FundingStatus::Cancelled, None,
        None);
    assert_eq!(cancelled, vec![b]);
    let second_page = c.get_deposits_by_funding_status_v2(FundingStatus::AwaitingFunding,
        Some(1), Some(1));
    assert_eq!(second_page, vec![d]);
}

#[test]
fn open_listing_view_is_descending_and_paged() {
    let mut c = new_ledger();
    let mut ids = Vec::new();
    for _ in 0..3 {
        let id = registered(&mut c);
        c.oracle_set_quote_v2(s("oracle"), 10_000, id, s("q"), s("a"), None, 99_000)
            .unwrap();
        c.oracle_confirm_funding_v2(s("oracle"), 20_000, id, s("q"), 700, s("tx"), s("OK"))
            .unwrap();
        ids.push(id);
    }
    let page = c.get_open_deposits_by_asset_v2(&s("BTC"), None, None);
    assert_eq!(page.len(), 3);
    assert_eq!(page[0].deposit_id, ids[2]);
    assert_eq!(page[1].deposit_id, ids[1]);
    assert_eq!(page[2].deposit_id, ids[0]);
    let tail = c.get_open_deposits_by_asset_v2(&s("BTC"), Some(2), Some(5));
    assert_eq!(tail.len(), 1);
    assert_eq!(tail[0].deposit_id, ids[0]);
    assert!(c.get_open_deposits_by_asset_v2(&s("ETH"), None, None).is_empty());
}

#[test]
fn page_limits_are_clamped() {
    let mut c = new_ledger();
    let a = registered(&mut c);
    let b = registered(&mut c);
    let zero_limit = c.get_deposits_by_funding_status_v2(FundingStatus::AwaitingFunding,
        None, Some(0));
    assert_eq!(zero_limit, vec![a]);
    let huge_limit = c.get_deposits_by_funding_status_v2(FundingStatus::AwaitingFunding,
        None, Some(1_000_000));
    assert_eq!(huge_limit, vec![a, b]);
    let past_end = c.get_deposits_by_funding_status_v2(FundingStatus::AwaitingFunding,
        Some(10), None);
    assert!(past_end.is_empty());
}

#[test]
fn migration_carries_the_ledger_over() {
    let mut c = Contract::new(s("owner"), s("fees"));
    let id = c
        .create_deposit(s("seller"), 7, s("USDC"), 1000, 10, 500, methods(), None)
        .unwrap();
    let old_state = anypay_escrow::migrate::OldContract {
        owner_id: c.owner_id,
        deposit_counter: c.deposit_counter,
        deposits: c.deposits,
        intent_counter: c.intent_counter,
        intents: c.intents,
        payment_methods: c.payment_methods,
        protocol_fee: c.protocol_fee,
        protocol_fee_recipient: c.protocol_fee_recipient,
        max_intents_per_deposit: c.max_intents_per_deposit,
        intent_expiration_period: c.intent_expiration_period,
    };
    let upgraded = Contract::migrate_v2(old_state, s("owner"), s("oracle"), 42, 0).unwrap();
    assert_eq!(upgraded.get_deposit(id).unwrap().total_deposit, 1000);
    assert_eq!(upgraded.get_v2_config().oracle_account_id, "oracle");
    assert_eq!(upgraded.get_v2_config().storage_fee_yocto, 42);
    assert_eq!(upgraded.get_v2_config().topup_window_ms, 10_800_000);
}
