//! The ledger's record types: deposits, intents, funding metadata, the
//! payment-method registry, and the read-only projections served to clients.
//!
//! Account identities, asset identifiers and intent hashes are plain strings;
//! the execution host is responsible for attesting who the caller is.

use vstd::prelude::*;

verus! {

/// A seller's locked liquidity lot.
///
/// Invariant (kept by every operation):
/// `remaining_deposits + outstanding_intents <= total_deposit` and
/// `0 < min_intent_amount <= max_intent_amount`.
#[derive(Clone, Debug)]
pub struct Deposit {
    pub deposit_id: u64,
    pub depositor: String,
    pub delegate: Option<String>,
    pub token: String,
    pub total_deposit: u128,
    pub remaining_deposits: u128,
    pub outstanding_intents: u128,
    pub min_intent_amount: u128,
    pub max_intent_amount: u128,
    pub timestamp: u64,
    pub payment_methods: Vec<String>,
}

/// Lifecycle of a buyer's reservation: `Signaled` is initial, the other
/// three are terminal.
#[derive(Clone, Copy, Debug, PartialEq, Eq, Structural)]
pub enum IntentStatus {
    Signaled,
    Fulfilled,
    Cancelled,
    Released,
}

/// A buyer's reservation against one deposit's liquidity.
#[derive(Clone, Debug)]
pub struct Intent {
    pub intent_hash: String,
    pub buyer: String,
    pub deposit_id: u64,
    pub amount: u128,
    pub timestamp: u64,
    pub payment_method: String,
    pub currency_code: String,
    pub status: IntentStatus,
    pub recipient: String,
    pub chain: String,
}

/// Lifecycle of the oracle-mediated funding workflow: `AwaitingFunding` is
/// initial, the other four are terminal; only `Funded` activates liquidity.
#[derive(Clone, Copy, Debug, PartialEq, Eq, Structural)]
pub enum FundingStatus {
    AwaitingFunding,
    Funded,
    TopUpExpired,
    Failed,
    Cancelled,
}

/// Oracle-workflow state attached one-to-one to a deposit created through
/// the funding path.
#[derive(Clone, Debug)]
pub struct DepositFundingMeta {
    pub asset_id: String,
    pub refund_to: String,
    pub quote_id: Option<String>,
    pub deposit_address: Option<String>,
    pub deposit_memo: Option<String>,
    pub quote_expires_at_ms: u64,
    pub quote_generation: u16,
    pub funding_started_at_ms: u64,
    pub topup_deadline_at_ms: u64,
    pub status: FundingStatus,
    pub funded_amount: u128,
    pub origin_tx_hash: Option<String>,
    pub last_intents_status: Option<String>,
    pub failure_reason: Option<String>,
    pub updated_at_ms: u64,
}

/// A registry entry naming an accepted payment method and its external
/// verifier capability.
#[derive(Clone, Debug)]
pub struct PaymentMethod {
    pub name: String,
    pub verifier: String,
    pub currencies: Vec<String>,
    pub initialized: bool,
}

/// A currency a payment method accepts, with a floor on the conversion rate.
#[derive(Clone, Debug)]
pub struct Currency {
    pub code: String,
    pub min_conversion_rate: u128,
}

/// Payee details a seller publishes for one payment method.
#[derive(Clone, Debug)]
pub struct DepositPaymentMethodData {
    pub payee_details_hash: String,
    pub verification_data: String,
    pub currencies: Vec<Currency>,
}

/// Transfer instructions derived from an intent: the `platform::tagname`
/// pair parsed from its payment method and a deterministic payment memo.
#[derive(Clone, Debug)]
pub struct IntentTransferDetailsView {
    pub intent_hash: String,
    pub deposit_id: u64,
    pub amount: u128,
    pub currency_code: String,
    pub payment_method_raw: String,
    pub platform: String,
    pub tagname: String,
    pub memo: String,
}

/// A funded listing as served by the open-listing views.
#[derive(Clone, Debug)]
pub struct DepositSummaryV2 {
    pub deposit_id: u64,
    pub asset_id: String,
    pub depositor: String,
    pub delegate: Option<String>,
    pub payment_methods: Vec<String>,
    pub min_intent_amount: u128,
    pub max_intent_amount: u128,
    pub funded_amount: u128,
    pub remaining_deposits: u128,
    pub topup_deadline_at_ms: u64,
    pub quote_expires_at_ms: u64,
    pub status: FundingStatus,
    pub updated_at_ms: u64,
}

/// A snapshot of the funding-workflow configuration.
#[derive(Clone, Debug)]
pub struct V2Config {
    pub oracle_account_id: String,
    pub storage_fee_yocto: u128,
    pub topup_window_ms: u64,
    pub max_quote_rotations: u16,
}

/// What fulfillment or release hands to the external settlement/signing
/// channel: the intent's amount, destination chain and recipient.
#[derive(Clone, Debug)]
pub struct SettlementRequest {
    pub intent_hash: String,
    pub amount: u128,
    pub chain: String,
    pub recipient: String,
}

} // verus!
