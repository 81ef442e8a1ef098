//! The ledger's error taxonomy: validation, authorization, state
//! precondition and not-found failures. Every failure leaves the ledger
//! unchanged; stale or duplicate oracle signals are not errors at all but
//! silent no-ops.

use vstd::prelude::*;

verus! {

/// Why an operation was rejected. Rejections are synchronous and leave all
/// state untouched.
#[derive(Clone, Copy, Debug, PartialEq, Eq, Structural)]
pub enum EscrowError {
    /// An amount parameter was zero.
    ZeroAmount,
    /// The minimum intent amount was zero.
    ZeroMinIntentAmount,
    /// The minimum intent amount was above the maximum.
    MinAboveMax,
    /// No payment method was supplied.
    NoPaymentMethods,
    /// No supplied payment method parses as `platform::tagname`.
    MissingPlatformTag,
    /// The asset identifier was blank.
    BlankAssetId,
    /// The refund destination was blank.
    BlankRefundTo,
    /// The attached collateral is below the configured storage fee.
    BelowStorageFee,
    /// The submitted proof was blank.
    EmptyProof,
    /// The submitted proof exceeds the size bound.
    ProofTooLarge,
    /// A payment method needs at least one currency.
    NoCurrencies,
    /// The protocol fee cannot exceed its cap.
    FeeAboveCap,
    /// The top-up window length must be positive.
    ZeroTopupWindow,
    /// The quote-rotation bound must be positive.
    ZeroMaxQuoteRotations,
    /// The caller is neither the depositor nor the delegate.
    NotManager,
    /// Only the depositor may perform this operation.
    NotDepositor,
    /// Only the contract owner may perform this operation.
    NotOwner,
    /// Only the oracle account may perform this operation.
    NotOracle,
    /// Only the buyer who signaled the intent may perform this operation.
    NotBuyer,
    /// The deposit still has outstanding intents.
    OutstandingIntents,
    /// The funding workflow has left `AwaitingFunding` and cannot be
    /// cancelled.
    NotCancelable,
    /// The quote-rotation bound has been reached.
    MaxQuoteRotationsReached,
    /// The funding workflow is not awaiting funding.
    NotAwaitingFunding,
    /// The funding window was never started.
    FundingWindowNotStarted,
    /// The top-up deadline has passed.
    TopUpDeadlinePassed,
    /// The supplied quote identifier does not match the active quote.
    StaleQuote,
    /// The listing's funding workflow has not confirmed funding.
    ListingNotFunded,
    /// The intent amount is below the deposit's minimum.
    AmountBelowMinimum,
    /// The intent amount is above the deposit's maximum.
    AmountAboveMaximum,
    /// The intent amount exceeds the deposit's remaining liquidity.
    InsufficientLiquidity,
    /// The payment method is not accepted by the deposit.
    PaymentMethodNotSupported,
    /// The deposit already carries the maximum number of intents.
    MaxIntentsReached,
    /// The intent is not in the `Signaled` state.
    NotSignaled,
    /// No deposit exists under the identifier.
    DepositNotFound,
    /// No funding metadata exists under the identifier.
    FundingNotFound,
    /// No intent exists under the hash.
    IntentNotFound,
}

} // verus!
