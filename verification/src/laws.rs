//! The ledger's standing laws, each proved from the state invariant or the
//! operations' contracts.

use vstd::prelude::*;
use crate::records::FundingStatus;
use crate::state::{Contract, sum_signaled, lemma_sum_signaled_nonneg};

verus! {

/// Liquidity is conserved: in every well-formed state, each deposit's
/// `remaining + outstanding` never exceeds its `total`, both are
/// non-negative, and `outstanding` is exactly the sum of the amounts still
/// reserved by `Signaled` intents.
pub proof fn lemma_liquidity_conserved(c: Contract, deposit_id: u64)
    requires
        c.wf(),
        c.has_deposit(deposit_id),
    ensures
        c.spec_deposit(deposit_id).remaining_deposits
            + c.spec_deposit(deposit_id).outstanding_intents
            <= c.spec_deposit(deposit_id).total_deposit,
        c.spec_deposit(deposit_id).outstanding_intents
            == sum_signaled(c.intents@, deposit_id),
        sum_signaled(c.intents@, deposit_id) >= 0,
{
    lemma_sum_signaled_nonneg(c.intents@, deposit_id);
}

/// The Open Listing Index is exact: in every well-formed state, a deposit
/// is listed under an asset if and only if it carries funding metadata for
/// that asset in status `Funded` and has remaining liquidity.
pub proof fn lemma_listing_exact(c: Contract, asset: Seq<char>, deposit_id: u64)
    requires
        c.wf(),
    ensures
        c.listed(asset, deposit_id) <==> (c.has_deposit(deposit_id)
            && (c.spec_funding(deposit_id) matches Some(m)
                && m.status == FundingStatus::Funded
                && m.asset_id@ == asset)
            && c.spec_deposit(deposit_id).remaining_deposits > 0),
{
}

/// The quote-rotation bound is an invariant of every operation that leaves
/// the funding table and the configured bound unchanged; together with the
/// preservation clauses of the funding-workflow operations this carries
/// `quote_generation <= max_quote_rotations` through every history that
/// never lowers the bound below an issued generation.
pub proof fn lemma_quote_bound_preserved(a: Contract, b: Contract)
    requires
        a.quote_gens_bounded(),
        b.deposit_funding == a.deposit_funding,
        b.max_quote_rotations == a.max_quote_rotations,
    ensures
        b.quote_gens_bounded(),
{
    assert forall|j: int| 0 <= j < b.deposit_funding@.len()
        implies (#[trigger] b.deposit_funding@[j]).1.quote_generation
            <= b.max_quote_rotations by {
        assert(b.deposit_funding@[j] == a.deposit_funding@[j]);
        assert(a.deposit_funding@[j].1.quote_generation <= a.max_quote_rotations);
    }
}

/// A ledger without funding workflows — fresh, or just migrated — trivially
/// satisfies the quote-rotation bound.
pub proof fn lemma_quote_bound_initial(c: Contract)
    requires
        c.deposit_funding@.len() == 0,
    ensures
        c.quote_gens_bounded(),
{
}

} // verus!
