//! The oracle-mediated funding workflow: a seller registers a pledged
//! deposit with no live liquidity; the oracle issues quotes (bounded by a
//! rotation limit) inside a top-up window; a confirmed funding re-bases the
//! deposit's liquidity and opens its listing; expiry, failure and
//! cancellation are terminal. Every oracle signal is fenced by the active
//! quote identifier and is a silent no-op once the workflow has left
//! `AwaitingFunding`, so retried signals are harmless.

use vstd::prelude::*;
use crate::errors::EscrowError;
use crate::payparse::{has_wellformed_pm, extract_payment_details};
use crate::records::{Deposit, FundingStatus, DepositFundingMeta};
use crate::state::{Contract, sum_signaled, signaled_contrib, lemma_sum_signaled_zero,
    lemma_alist_find_push, lemma_alist_find_update, lemma_listed_same_index};
use crate::text::{is_blank, check_blank};

verus! {

/// `a + b` clamped to the top of `u64`.
pub open spec fn sat_add_u64(a: u64, b: u64) -> u64 {
    if a + b > u64::MAX {
        u64::MAX
    } else {
        (a + b) as u64
    }
}

/// Saturating addition on `u64`.
pub fn saturating_add_u64(a: u64, b: u64) -> (r: u64)
    ensures
        r == sat_add_u64(a, b),
{
    if a > u64::MAX - b {
        u64::MAX
    } else {
        a + b
    }
}

impl Contract {
    /// Every funding workflow's quote generation is within the configured
    /// rotation bound.
    pub open spec fn quote_gens_bounded(self) -> bool {
        forall|j: int| 0 <= j < self.deposit_funding@.len()
            ==> (#[trigger] self.deposit_funding@[j]).1.quote_generation
                <= self.max_quote_rotations
    }

    /// The caller is the configured oracle account.
    pub open spec fn spec_is_oracle(self, caller: Seq<char>) -> bool {
        self.oracle_account_id@ == caller
    }

    /// Registers a pledged deposit on the funding path: the deposit starts
    /// with no live liquidity (`remaining = 0`) and funding metadata in
    /// `AwaitingFunding` with zeroed timers. The caller must attach at
    /// least the configured storage fee.
    pub fn register_deposit_intent_v2(&mut self, caller: String, attached_yocto: u128,
        timestamp: u64, now_ms: u64, asset_id: String, expected_amount: u128,
        min_intent_amount: u128, max_intent_amount: u128, payment_methods: Vec<String>,
        delegate: Option<String>, refund_to: String) -> (r: Result<u64, EscrowError>)
        requires
            old(self).wf(),
            old(self).deposit_counter < u64::MAX,
        ensures
            final(self).wf(),
            old(self).quote_gens_bounded() ==> final(self).quote_gens_bounded(),
            r == Err::<u64, EscrowError>(EscrowError::BelowStorageFee)
                <==> attached_yocto < old(self).v2_storage_fee_yocto,
            r == Err::<u64, EscrowError>(EscrowError::ZeroAmount)
                <==> attached_yocto >= old(self).v2_storage_fee_yocto
                    && expected_amount == 0,
            r == Err::<u64, EscrowError>(EscrowError::ZeroMinIntentAmount)
                <==> attached_yocto >= old(self).v2_storage_fee_yocto
                    && expected_amount > 0 && min_intent_amount == 0,
            r == Err::<u64, EscrowError>(EscrowError::MinAboveMax)
                <==> attached_yocto >= old(self).v2_storage_fee_yocto
                    && expected_amount > 0 && 0 < min_intent_amount
                    && min_intent_amount > max_intent_amount,
            r == Err::<u64, EscrowError>(EscrowError::NoPaymentMethods)
                <==> attached_yocto >= old(self).v2_storage_fee_yocto
                    && expected_amount > 0 && 0 < min_intent_amount
                    && min_intent_amount <= max_intent_amount
                    && payment_methods@.len() == 0,
            r == Err::<u64, EscrowError>(EscrowError::MissingPlatformTag)
                <==> attached_yocto >= old(self).v2_storage_fee_yocto
                    && expected_amount > 0 && 0 < min_intent_amount
                    && min_intent_amount <= max_intent_amount
                    && payment_methods@.len() > 0 && !has_wellformed_pm(payment_methods@),
            r == Err::<u64, EscrowError>(EscrowError::BlankAssetId)
                <==> attached_yocto >= old(self).v2_storage_fee_yocto
                    && expected_amount > 0 && 0 < min_intent_amount
                    && min_intent_amount <= max_intent_amount
                    && payment_methods@.len() > 0 && has_wellformed_pm(payment_methods@)
                    && is_blank(asset_id@),
            r == Err::<u64, EscrowError>(EscrowError::BlankRefundTo)
                <==> attached_yocto >= old(self).v2_storage_fee_yocto
                    && expected_amount > 0 && 0 < min_intent_amount
                    && min_intent_amount <= max_intent_amount
                    && payment_methods@.len() > 0 && has_wellformed_pm(payment_methods@)
                    && !is_blank(asset_id@) && is_blank(refund_to@),
            r is Ok <==> attached_yocto >= old(self).v2_storage_fee_yocto
                && expected_amount > 0 && 0 < min_intent_amount
                && min_intent_amount <= max_intent_amount
                && payment_methods@.len() > 0 && has_wellformed_pm(payment_methods@)
                && !is_blank(asset_id@) && !is_blank(refund_to@),
            r is Err ==> *final(self) == *old(self),
            r matches Ok(id) ==> {
                let d = final(self).spec_deposit(id);
                let m = final(self).spec_funding(id)->Some_0;
                &&& id == old(self).deposit_counter + 1
                &&& final(self).deposit_counter == id
                &&& final(self).deposits@ == old(self).deposits@.push(d)
                &&& d.deposit_id == id
                &&& d.depositor == caller
                &&& d.delegate == delegate
                &&& d.token@ == asset_id@
                &&& d.total_deposit == expected_amount
                &&& d.remaining_deposits == 0
                &&& d.outstanding_intents == 0
                &&& d.min_intent_amount == min_intent_amount
                &&& d.max_intent_amount == max_intent_amount
                &&& d.timestamp == timestamp
                &&& d.payment_methods == payment_methods
                &&& final(self).spec_funding(id) is Some
                &&& final(self).deposit_funding@ == old(self).deposit_funding@.push((id, m))
                &&& m.asset_id@ == asset_id@
                &&& m.refund_to == refund_to
                &&& m.quote_id is None
                &&& m.deposit_address is None
                &&& m.deposit_memo is None
                &&& m.quote_expires_at_ms == 0
                &&& m.quote_generation == 0
                &&& m.funding_started_at_ms == 0
                &&& m.topup_deadline_at_ms == 0
                &&& m.status == FundingStatus::AwaitingFunding
                &&& m.funded_amount == 0
                &&& m.origin_tx_hash is None
                &&& m.last_intents_status is None
                &&& m.failure_reason is None
                &&& m.updated_at_ms == now_ms
                &&& final(self).intents == old(self).intents
                &&& final(self).open_deposits_by_asset == old(self).open_deposits_by_asset
                &&& final(self).payment_methods == old(self).payment_methods
                &&& final(self).intent_counter == old(self).intent_counter
                &&& Self::eq_config(*old(self), *final(self))
            },
    {
        let ghost pre = *old(self);
        if attached_yocto < self.v2_storage_fee_yocto {
            return Err(EscrowError::BelowStorageFee);
        }
        if expected_amount == 0 {
            return Err(EscrowError::ZeroAmount);
        }
        if min_intent_amount == 0 {
            return Err(EscrowError::ZeroMinIntentAmount);
        }
        if min_intent_amount > max_intent_amount {
            return Err(EscrowError::MinAboveMax);
        }
        if payment_methods.len() == 0 {
            return Err(EscrowError::NoPaymentMethods);
        }
        if extract_payment_details(&payment_methods).is_none() {
            return Err(EscrowError::MissingPlatformTag);
        }
        if check_blank(asset_id.as_str()) {
            return Err(EscrowError::BlankAssetId);
        }
        if check_blank(refund_to.as_str()) {
            return Err(EscrowError::BlankRefundTo);
        }
        let deposit_id = self.deposit_counter + 1;
        self.deposit_counter = deposit_id;
        let token = asset_id.clone();
        let deposit = Deposit {
            deposit_id,
            depositor: caller,
            delegate,
            token,
            total_deposit: expected_amount,
            remaining_deposits: 0,
            outstanding_intents: 0,
            min_intent_amount,
            max_intent_amount,
            timestamp,
            payment_methods,
        };
        let funding = DepositFundingMeta {
            asset_id,
            refund_to,
            quote_id: None,
            deposit_address: None,
            deposit_memo: None,
            quote_expires_at_ms: 0,
            quote_generation: 0,
            funding_started_at_ms: 0,
            topup_deadline_at_ms: 0,
            status: FundingStatus::AwaitingFunding,
            funded_amount: 0,
            origin_tx_hash: None,
            last_intents_status: None,
            failure_reason: None,
            updated_at_ms: now_ms,
        };
        self.deposits.push(deposit);
        self.deposit_funding.push((deposit_id, funding));
        proof {
            assert(forall|j: int| 0 <= j < pre.deposit_funding@.len()
                ==> (#[trigger] pre.deposit_funding@[j]).0 != deposit_id);
            lemma_alist_find_push(pre.deposit_funding@, deposit_id,
                self.deposit_funding@.last().1);
            assert(forall|i: int| 0 <= i < self.intents@.len()
                ==> signaled_contrib(#[trigger] self.intents@[i], deposit_id) == 0);
            lemma_sum_signaled_zero(self.intents@, deposit_id);
            assert(forall|id: u64| pre.has_deposit(id)
                ==> #[trigger] self.spec_deposit(id) == pre.spec_deposit(id));
            assert forall|id: u64| self.has_deposit(id)
                implies (#[trigger] self.spec_deposit(id)).outstanding_intents
                    == sum_signaled(self.intents@, id) by {
                if id != deposit_id {
                    assert(self.spec_funding(id) == pre.spec_funding(id));
                }
            }
            assert forall|i: int| 0 <= i < self.intents@.len()
                implies (match self.spec_funding((#[trigger] self.intents@[i]).deposit_id) {
                    Some(m) => m.status == FundingStatus::Funded,
                    None => true,
                }) by {
                assert(self.intents@[i].deposit_id != deposit_id);
                assert(self.spec_funding(self.intents@[i].deposit_id)
                    == pre.spec_funding(self.intents@[i].deposit_id));
            }
            lemma_listed_same_index(pre, *self);
            assert forall|asset: Seq<char>, id: u64| #[trigger] self.listed(asset, id)
                <==> self.should_list(id) && asset == self.funding_asset(id) by {
                assert(self.listed(asset, id) == pre.listed(asset, id));
                if id == deposit_id {
                    assert(!pre.should_list(id));
                    assert(self.spec_deposit(id).remaining_deposits == 0);
                    assert(!self.should_list(id));
                } else {
                    assert(self.spec_funding(id) == pre.spec_funding(id));
                    assert(self.should_list(id) == pre.should_list(id));
                }
            }
        }
        Ok(deposit_id)
    }

    /// Cancels a pledged deposit's funding workflow on the seller's
    /// authority: allowed only while `AwaitingFunding`; records the reason
    /// and removes any open listing.
    pub fn cancel_deposit_intent_v2(&mut self, caller: String, now_ms: u64, deposit_id: u64)
        -> (r: Result<(), EscrowError>)
        requires
            old(self).wf(),
        ensures
            final(self).wf(),
            old(self).quote_gens_bounded() ==> final(self).quote_gens_bounded(),
            r == Err::<(), EscrowError>(EscrowError::DepositNotFound)
                <==> !old(self).has_deposit(deposit_id),
            r == Err::<(), EscrowError>(EscrowError::FundingNotFound)
                <==> old(self).has_deposit(deposit_id)
                    && old(self).spec_funding(deposit_id) is None,
            r == Err::<(), EscrowError>(EscrowError::NotManager)
                <==> old(self).has_deposit(deposit_id)
                    && old(self).spec_funding(deposit_id) is Some
                    && !Self::spec_is_manager(caller@, old(self).spec_deposit(deposit_id)),
            r == Err::<(), EscrowError>(EscrowError::NotCancelable)
                <==> old(self).has_deposit(deposit_id)
                    && old(self).spec_funding(deposit_id) is Some
                    && Self::spec_is_manager(caller@, old(self).spec_deposit(deposit_id))
                    && old(self).spec_funding(deposit_id)->Some_0.status
                        != FundingStatus::AwaitingFunding,
            r is Ok <==> old(self).has_deposit(deposit_id)
                && old(self).spec_funding(deposit_id) is Some
                && Self::spec_is_manager(caller@, old(self).spec_deposit(deposit_id))
                && old(self).spec_funding(deposit_id)->Some_0.status
                    == FundingStatus::AwaitingFunding,
            r is Err ==> *final(self) == *old(self),
            r is Ok ==> {
                let m0 = old(self).spec_funding(deposit_id)->Some_0;
                let m = final(self).spec_funding(deposit_id)->Some_0;
                &&& final(self).spec_funding(deposit_id) is Some
                &&& m == DepositFundingMeta {
                    status: FundingStatus::Cancelled,
                    failure_reason: m.failure_reason,
                    updated_at_ms: now_ms,
                    ..m0
                }
                &&& m.failure_reason matches Some(reason)
                    && reason@ == "Cancelled by seller"@
                &&& forall|id: u64| id != deposit_id
                    ==> #[trigger] final(self).spec_funding(id) == old(self).spec_funding(id)
                &&& final(self).deposits == old(self).deposits
                &&& final(self).intents == old(self).intents
                &&& final(self).payment_methods == old(self).payment_methods
                &&& final(self).deposit_counter == old(self).deposit_counter
                &&& final(self).intent_counter == old(self).intent_counter
                &&& Self::eq_config(*old(self), *final(self))
                &&& forall|a: Seq<char>| !(#[trigger] final(self).listed(a, deposit_id))
            },
    {
        let ghost pre = *old(self);
        if deposit_id < 1 || deposit_id > self.deposits.len() as u64 {
            return Err(EscrowError::DepositNotFound);
        }
        let di = (deposit_id - 1) as usize;
        let fj = match self.find_funding_index(deposit_id) {
            None => {
                return Err(EscrowError::FundingNotFound);
            },
            Some(fj) => fj,
        };
        if !Self::is_deposit_manager(&caller, &self.deposits[di]) {
            return Err(EscrowError::NotManager);
        }
        match self.deposit_funding[fj].1.status {
            FundingStatus::AwaitingFunding => { },
            _ => {
                return Err(EscrowError::NotCancelable);
            },
        }
        let mut entry = self.deposit_funding.remove(fj);
        let asset = entry.1.asset_id.clone();
        entry.1.status = FundingStatus::Cancelled;
        entry.1.failure_reason = Some(String::from_str("Cancelled by seller"));
        entry.1.updated_at_ms = now_ms;
        let ghost m2 = entry.1;
        self.deposit_funding.insert(fj, entry);
        proof {
            assert(self.deposit_funding@ =~= pre.deposit_funding@.update(fj as int,
                (deposit_id, m2)));
            lemma_alist_find_update(pre.deposit_funding@, fj as int, m2);
            lemma_listed_same_index(pre, *self);
            assert forall|a: Seq<char>| #[trigger] self.listed(a, deposit_id)
                implies a == m2.asset_id@ by {
                assert(pre.listed(a, deposit_id));
                assert(pre.should_list(deposit_id) && a == pre.funding_asset(deposit_id));
            }
        }
        let ghost mid = *self;
        self.remove_open_listing(&asset, deposit_id);
        proof {
            if pre.quote_gens_bounded() {
                assert(pre.deposit_funding@[fj as int].1.quote_generation
                    <= pre.max_quote_rotations);
            }
            self.lemma_wf_after_terminal_transition(pre, mid, deposit_id, asset@);
        }
        Ok(())
    }

    /// Stores a fresh oracle quote for an awaiting deposit. The first quote
    /// starts the funding window (`topup_deadline = now + topup_window`).
    /// Once the workflow has left `AwaitingFunding` the call is a silent
    /// no-op; a call past the top-up deadline expires the workflow instead
    /// of accepting the quote; the rotation bound caps how many quotes may
    /// ever be stored.
    pub fn oracle_set_quote_v2(&mut self, caller: String, now_ms: u64, deposit_id: u64,
        quote_id: String, deposit_address: String, deposit_memo: Option<String>,
        quote_expires_at_ms: u64) -> (r: Result<(), EscrowError>)
        requires
            old(self).wf(),
        ensures
            final(self).wf(),
            old(self).quote_gens_bounded() ==> final(self).quote_gens_bounded(),
            r == Err::<(), EscrowError>(EscrowError::NotOracle)
                <==> !old(self).spec_is_oracle(caller@),
            r == Err::<(), EscrowError>(EscrowError::DepositNotFound)
                <==> old(self).spec_is_oracle(caller@) && !old(self).has_deposit(deposit_id),
            r == Err::<(), EscrowError>(EscrowError::FundingNotFound)
                <==> old(self).spec_is_oracle(caller@) && old(self).has_deposit(deposit_id)
                    && old(self).spec_funding(deposit_id) is None,
            (old(self).spec_is_oracle(caller@) && old(self).has_deposit(deposit_id)
                && old(self).spec_funding(deposit_id) is Some
                && old(self).spec_funding(deposit_id)->Some_0.status
                    != FundingStatus::AwaitingFunding)
                ==> r is Ok && *final(self) == *old(self),
            r == Err::<(), EscrowError>(EscrowError::MaxQuoteRotationsReached)
                <==> old(self).spec_is_oracle(caller@) && old(self).has_deposit(deposit_id)
                    && old(self).spec_funding(deposit_id) is Some
                    && old(self).spec_funding(deposit_id)->Some_0.status
                        == FundingStatus::AwaitingFunding
                    && old(self).spec_funding(deposit_id)->Some_0.quote_generation
                        >= old(self).max_quote_rotations,
            (old(self).spec_is_oracle(caller@) && old(self).has_deposit(deposit_id)
                && old(self).spec_funding(deposit_id) is Some
                && old(self).spec_funding(deposit_id)->Some_0.status
                    == FundingStatus::AwaitingFunding
                && old(self).spec_funding(deposit_id)->Some_0.quote_generation
                    < old(self).max_quote_rotations) ==> {
                let m0 = old(self).spec_funding(deposit_id)->Some_0;
                let started = if m0.funding_started_at_ms == 0 { now_ms }
                    else { m0.funding_started_at_ms };
                let deadline = if m0.funding_started_at_ms == 0 {
                    sat_add_u64(now_ms, old(self).topup_window_ms)
                } else {
                    m0.topup_deadline_at_ms
                };
                let m = final(self).spec_funding(deposit_id)->Some_0;
                &&& r is Ok
                &&& final(self).spec_funding(deposit_id) is Some
                &&& m.funding_started_at_ms == started
                &&& m.topup_deadline_at_ms == deadline
                &&& m.updated_at_ms == now_ms
                &&& m.asset_id == m0.asset_id
                &&& m.refund_to == m0.refund_to
                &&& m.funded_amount == m0.funded_amount
                &&& m.origin_tx_hash == m0.origin_tx_hash
                &&& (now_ms >= deadline ==> {
                    &&& m.status == FundingStatus::TopUpExpired
                    &&& (m.failure_reason matches Some(why)
                        && why@ == "Top-up window already expired"@)
                    &&& m.quote_id == m0.quote_id
                    &&& m.deposit_address == m0.deposit_address
                    &&& m.deposit_memo == m0.deposit_memo
                    &&& m.quote_expires_at_ms == m0.quote_expires_at_ms
                    &&& m.quote_generation == m0.quote_generation
                    &&& m.last_intents_status == m0.last_intents_status
                    &&& forall|a: Seq<char>| !(#[trigger] final(self).listed(a, deposit_id))
                })
                &&& (now_ms < deadline ==> {
                    &&& m.status == FundingStatus::AwaitingFunding
                    &&& (m.quote_id matches Some(q) && q@ == quote_id@)
                    &&& (m.deposit_address matches Some(ad) && ad@ == deposit_address@)
                    &&& (match deposit_memo {
                        None => m.deposit_memo is None,
                        Some(memo) => if crate::text::trim_spec(memo@).len() == 0 {
                            m.deposit_memo is None
                        } else {
                            m.deposit_memo matches Some(t)
                                && t@ == crate::text::trim_spec(memo@)
                        },
                    })
                    &&& m.quote_expires_at_ms == quote_expires_at_ms
                    &&& m.quote_generation == m0.quote_generation + 1
                    &&& (m.last_intents_status matches Some(s)
                        && s@ == "PENDING_DEPOSIT"@)
                    &&& m.failure_reason == m0.failure_reason
                    &&& final(self).open_deposits_by_asset
                        == old(self).open_deposits_by_asset
                })
                &&& forall|id: u64| id != deposit_id
                    ==> #[trigger] final(self).spec_funding(id)
                        == old(self).spec_funding(id)
                &&& final(self).deposits == old(self).deposits
                &&& final(self).intents == old(self).intents
                &&& final(self).payment_methods == old(self).payment_methods
                &&& final(self).deposit_counter == old(self).deposit_counter
                &&& final(self).intent_counter == old(self).intent_counter
                &&& Self::eq_config(*old(self), *final(self))
            },
            r is Ok <==> old(self).spec_is_oracle(caller@) && old(self).has_deposit(deposit_id)
                && old(self).spec_funding(deposit_id) is Some
                && (old(self).spec_funding(deposit_id)->Some_0.status
                        != FundingStatus::AwaitingFunding
                    || old(self).spec_funding(deposit_id)->Some_0.quote_generation
                        < old(self).max_quote_rotations),
            r is Err ==> *final(self) == *old(self),
    {
        let ghost pre = *old(self);
        if !(caller == self.oracle_account_id) {
            return Err(EscrowError::NotOracle);
        }
        if deposit_id < 1 || deposit_id > self.deposits.len() as u64 {
            return Err(EscrowError::DepositNotFound);
        }
        let fj = match self.find_funding_index(deposit_id) {
            None => {
                return Err(EscrowError::FundingNotFound);
            },
            Some(fj) => fj,
        };
        match self.deposit_funding[fj].1.status {
            FundingStatus::AwaitingFunding => { },
            _ => {
                return Ok(());
            },
        }
        if self.deposit_funding[fj].1.quote_generation >= self.max_quote_rotations {
            return Err(EscrowError::MaxQuoteRotationsReached);
        }
        let window = self.topup_window_ms;
        let mut entry = self.deposit_funding.remove(fj);
        let asset = entry.1.asset_id.clone();
        if entry.1.funding_started_at_ms == 0 {
            entry.1.funding_started_at_ms = now_ms;
            entry.1.topup_deadline_at_ms = saturating_add_u64(now_ms, window);
        }
        if now_ms >= entry.1.topup_deadline_at_ms {
            entry.1.status = FundingStatus::TopUpExpired;
            entry.1.failure_reason = Some(String::from_str("Top-up window already expired"));
            entry.1.updated_at_ms = now_ms;
            let ghost m2 = entry.1;
            self.deposit_funding.insert(fj, entry);
            proof {
                assert(self.deposit_funding@ =~= pre.deposit_funding@.update(fj as int,
                    (deposit_id, m2)));
                lemma_alist_find_update(pre.deposit_funding@, fj as int, m2);
                lemma_listed_same_index(pre, *self);
                assert forall|a: Seq<char>| #[trigger] self.listed(a, deposit_id)
                    implies a == m2.asset_id@ by {
                    assert(pre.listed(a, deposit_id));
                    assert(pre.should_list(deposit_id));
                }
            }
            let ghost mid = *self;
            self.remove_open_listing(&asset, deposit_id);
            proof {
                if pre.quote_gens_bounded() {
                    assert(pre.deposit_funding@[fj as int].1.quote_generation
                        <= pre.max_quote_rotations);
                }
                self.lemma_wf_after_terminal_transition(pre, mid, deposit_id, asset@);
            }
            return Ok(());
        }
        entry.1.quote_id = Some(quote_id);
        entry.1.deposit_address = Some(deposit_address);
        entry.1.deposit_memo = match deposit_memo {
            None => None,
            Some(memo) => {
                let trimmed = crate::text::trim_str(memo.as_str());
                if trimmed.as_str().unicode_len() == 0 {
                    None
                } else {
                    Some(trimmed)
                }
            },
        };
        entry.1.quote_expires_at_ms = quote_expires_at_ms;
        entry.1.quote_generation = entry.1.quote_generation + 1;
        entry.1.last_intents_status = Some(String::from_str("PENDING_DEPOSIT"));
        entry.1.updated_at_ms = now_ms;
        let ghost m2 = entry.1;
        self.deposit_funding.insert(fj, entry);
        proof {
            assert(self.deposit_funding@ =~= pre.deposit_funding@.update(fj as int,
                (deposit_id, m2)));
            lemma_alist_find_update(pre.deposit_funding@, fj as int, m2);
            lemma_listed_same_index(pre, *self);
            assert forall|a: Seq<char>| !(#[trigger] self.listed(a, deposit_id)) by {
                if self.listed(a, deposit_id) {
                    assert(pre.listed(a, deposit_id));
                    assert(pre.should_list(deposit_id));
                }
            }
            self.lemma_wf_after_terminal_transition(pre, *self, deposit_id, m2.asset_id@);
        }
        Ok(())
    }

    /// The supplied quote identifier matches the workflow's active quote
    /// (a workflow without an active quote matches any identifier).
    pub open spec fn quote_matches(m: DepositFundingMeta, quote_id: Seq<char>) -> bool {
        match m.quote_id {
            None => true,
            Some(cur) => cur@ == quote_id,
        }
    }

    /// Clears the active quote after the oracle reports it expired, fenced
    /// by the quote identifier. If the top-up deadline has passed by now,
    /// the whole workflow expires and its listing is removed. A stale
    /// identifier or a workflow no longer awaiting funding is a silent
    /// no-op.
    pub fn oracle_mark_quote_expired_v2(&mut self, caller: String, now_ms: u64,
        deposit_id: u64, quote_id: String) -> (r: Result<(), EscrowError>)
        requires
            old(self).wf(),
        ensures
            final(self).wf(),
            old(self).quote_gens_bounded() ==> final(self).quote_gens_bounded(),
            r == Err::<(), EscrowError>(EscrowError::NotOracle)
                <==> !old(self).spec_is_oracle(caller@),
            r == Err::<(), EscrowError>(EscrowError::FundingNotFound)
                <==> old(self).spec_is_oracle(caller@)
                    && old(self).spec_funding(deposit_id) is None,
            r is Ok <==> old(self).spec_is_oracle(caller@)
                && old(self).spec_funding(deposit_id) is Some,
            r is Err ==> *final(self) == *old(self),
            (old(self).spec_is_oracle(caller@)
                && old(self).spec_funding(deposit_id) is Some
                && (old(self).spec_funding(deposit_id)->Some_0.status
                        != FundingStatus::AwaitingFunding
                    || !Self::quote_matches(old(self).spec_funding(deposit_id)->Some_0,
                        quote_id@)))
                ==> *final(self) == *old(self),
            (old(self).spec_is_oracle(caller@)
                && old(self).spec_funding(deposit_id) is Some
                && old(self).spec_funding(deposit_id)->Some_0.status
                    == FundingStatus::AwaitingFunding
                && Self::quote_matches(old(self).spec_funding(deposit_id)->Some_0,
                    quote_id@)) ==> {
                let m0 = old(self).spec_funding(deposit_id)->Some_0;
                let m = final(self).spec_funding(deposit_id)->Some_0;
                let deadline_hit = m0.topup_deadline_at_ms > 0
                    && now_ms >= m0.topup_deadline_at_ms;
                &&& final(self).spec_funding(deposit_id) is Some
                &&& m.quote_id is None
                &&& m.deposit_address is None
                &&& m.deposit_memo is None
                &&& m.quote_expires_at_ms == 0
                &&& (m.last_intents_status matches Some(s) && s@ == "QUOTE_EXPIRED"@)
                &&& m.updated_at_ms == now_ms
                &&& m.quote_generation == m0.quote_generation
                &&& m.asset_id == m0.asset_id
                &&& m.refund_to == m0.refund_to
                &&& m.funding_started_at_ms == m0.funding_started_at_ms
                &&& m.topup_deadline_at_ms == m0.topup_deadline_at_ms
                &&& m.funded_amount == m0.funded_amount
                &&& m.origin_tx_hash == m0.origin_tx_hash
                &&& (deadline_hit ==> {
                    &&& m.status == FundingStatus::TopUpExpired
                    &&& (m.failure_reason matches Some(why)
                        && why@ == "Top-up window expired"@)
                    &&& forall|a: Seq<char>| !(#[trigger] final(self).listed(a, deposit_id))
                })
                &&& (!deadline_hit ==> {
                    &&& m.status == FundingStatus::AwaitingFunding
                    &&& m.failure_reason == m0.failure_reason
                    &&& final(self).open_deposits_by_asset
                        == old(self).open_deposits_by_asset
                })
                &&& forall|id: u64| id != deposit_id
                    ==> #[trigger] final(self).spec_funding(id)
                        == old(self).spec_funding(id)
                &&& final(self).deposits == old(self).deposits
                &&& final(self).intents == old(self).intents
                &&& final(self).payment_methods == old(self).payment_methods
                &&& final(self).deposit_counter == old(self).deposit_counter
                &&& final(self).intent_counter == old(self).intent_counter
                &&& Self::eq_config(*old(self), *final(self))
            },
    {
        let ghost pre = *old(self);
        if !(caller == self.oracle_account_id) {
            return Err(EscrowError::NotOracle);
        }
        let fj = match self.find_funding_index(deposit_id) {
            None => {
                return Err(EscrowError::FundingNotFound);
            },
            Some(fj) => fj,
        };
        match self.deposit_funding[fj].1.status {
            FundingStatus::AwaitingFunding => { },
            _ => {
                return Ok(());
            },
        }
        match &self.deposit_funding[fj].1.quote_id {
            Some(cur) => {
                if !(*cur == quote_id) {
                    return Ok(());
                }
            },
            None => { },
        }
        proof {
            assert(pre.has_deposit(deposit_id));
        }
        let mut entry = self.deposit_funding.remove(fj);
        let asset = entry.1.asset_id.clone();
        let deadline_hit = entry.1.topup_deadline_at_ms > 0
            && now_ms >= entry.1.topup_deadline_at_ms;
        entry.1.quote_id = None;
        entry.1.deposit_address = None;
        entry.1.deposit_memo = None;
        entry.1.quote_expires_at_ms = 0;
        entry.1.last_intents_status = Some(String::from_str("QUOTE_EXPIRED"));
        entry.1.updated_at_ms = now_ms;
        if deadline_hit {
            entry.1.status = FundingStatus::TopUpExpired;
            entry.1.failure_reason = Some(String::from_str("Top-up window expired"));
        }
        let ghost m2 = entry.1;
        self.deposit_funding.insert(fj, entry);
        proof {
            assert(self.deposit_funding@ =~= pre.deposit_funding@.update(fj as int,
                (deposit_id, m2)));
            lemma_alist_find_update(pre.deposit_funding@, fj as int, m2);
            lemma_listed_same_index(pre, *self);
            if pre.quote_gens_bounded() {
                assert(pre.deposit_funding@[fj as int].1.quote_generation
                    <= pre.max_quote_rotations);
            }
        }
        if deadline_hit {
            proof {
                assert forall|a: Seq<char>| #[trigger] self.listed(a, deposit_id)
                    implies a == m2.asset_id@ by {
                    assert(pre.listed(a, deposit_id));
                    assert(pre.should_list(deposit_id));
                }
            }
            let ghost mid = *self;
            self.remove_open_listing(&asset, deposit_id);
            proof {
                self.lemma_wf_after_terminal_transition(pre, mid, deposit_id, asset@);
            }
        } else {
            proof {
                assert forall|a: Seq<char>| !(#[trigger] self.listed(a, deposit_id)) by {
                    if self.listed(a, deposit_id) {
                        assert(pre.listed(a, deposit_id));
                        assert(pre.should_list(deposit_id));
                    }
                }
                self.lemma_wf_after_terminal_transition(pre, *self, deposit_id,
                    m2.asset_id@);
            }
        }
        Ok(())
    }

    /// Marks a funding workflow failed on the oracle's authority, fenced by
    /// the quote identifier; terminal states and stale identifiers are
    /// silent no-ops. Removes any open listing.
    pub fn oracle_mark_failed_v2(&mut self, caller: String, now_ms: u64, deposit_id: u64,
        quote_id: String, intents_status: String, reason: String)
        -> (r: Result<(), EscrowError>)
        requires
            old(self).wf(),
        ensures
            final(self).wf(),
            old(self).quote_gens_bounded() ==> final(self).quote_gens_bounded(),
            r == Err::<(), EscrowError>(EscrowError::NotOracle)
                <==> !old(self).spec_is_oracle(caller@),
            r == Err::<(), EscrowError>(EscrowError::FundingNotFound)
                <==> old(self).spec_is_oracle(caller@)
                    && old(self).spec_funding(deposit_id) is None,
            r is Ok <==> old(self).spec_is_oracle(caller@)
                && old(self).spec_funding(deposit_id) is Some,
            r is Err ==> *final(self) == *old(self),
            (old(self).spec_is_oracle(caller@)
                && old(self).spec_funding(deposit_id) is Some
                && (old(self).spec_funding(deposit_id)->Some_0.status
                        != FundingStatus::AwaitingFunding
                    || !Self::quote_matches(old(self).spec_funding(deposit_id)->Some_0,
                        quote_id@)))
                ==> *final(self) == *old(self),
            (old(self).spec_is_oracle(caller@)
                && old(self).spec_funding(deposit_id) is Some
                && old(self).spec_funding(deposit_id)->Some_0.status
                    == FundingStatus::AwaitingFunding
                && Self::quote_matches(old(self).spec_funding(deposit_id)->Some_0,
                    quote_id@)) ==> {
                let m0 = old(self).spec_funding(deposit_id)->Some_0;
                let m = final(self).spec_funding(deposit_id)->Some_0;
                &&& final(self).spec_funding(deposit_id) is Some
                &&& m == DepositFundingMeta {
                    status: FundingStatus::Failed,
                    last_intents_status: Some(intents_status),
                    failure_reason: Some(reason),
                    updated_at_ms: now_ms,
                    ..m0
                }
                &&& forall|a: Seq<char>| !(#[trigger] final(self).listed(a, deposit_id))
                &&& forall|id: u64| id != deposit_id
                    ==> #[trigger] final(self).spec_funding(id)
                        == old(self).spec_funding(id)
                &&& final(self).deposits == old(self).deposits
                &&& final(self).intents == old(self).intents
                &&& final(self).payment_methods == old(self).payment_methods
                &&& final(self).deposit_counter == old(self).deposit_counter
                &&& final(self).intent_counter == old(self).intent_counter
                &&& Self::eq_config(*old(self), *final(self))
            },
    {
        self.oracle_mark_terminal(caller, now_ms, deposit_id, quote_id,
            Some(intents_status), reason, false)
    }

    /// Expires a funding workflow's top-up window on the oracle's
    /// authority, fenced by the quote identifier; terminal states and stale
    /// identifiers are silent no-ops. Removes any open listing.
    pub fn oracle_mark_topup_expired_v2(&mut self, caller: String, now_ms: u64,
        deposit_id: u64, quote_id: String, reason: String) -> (r: Result<(), EscrowError>)
        requires
            old(self).wf(),
        ensures
            final(self).wf(),
            old(self).quote_gens_bounded() ==> final(self).quote_gens_bounded(),
            r == Err::<(), EscrowError>(EscrowError::NotOracle)
                <==> !old(self).spec_is_oracle(caller@),
            r == Err::<(), EscrowError>(EscrowError::FundingNotFound)
                <==> old(self).spec_is_oracle(caller@)
                    && old(self).spec_funding(deposit_id) is None,
            r is Ok <==> old(self).spec_is_oracle(caller@)
                && old(self).spec_funding(deposit_id) is Some,
            r is Err ==> *final(self) == *old(self),
            (old(self).spec_is_oracle(caller@)
                && old(self).spec_funding(deposit_id) is Some
                && (old(self).spec_funding(deposit_id)->Some_0.status
                        != FundingStatus::AwaitingFunding
                    || !Self::quote_matches(old(self).spec_funding(deposit_id)->Some_0,
                        quote_id@)))
                ==> *final(self) == *old(self),
            (old(self).spec_is_oracle(caller@)
                && old(self).spec_funding(deposit_id) is Some
                && old(self).spec_funding(deposit_id)->Some_0.status
                    == FundingStatus::AwaitingFunding
                && Self::quote_matches(old(self).spec_funding(deposit_id)->Some_0,
                    quote_id@)) ==> {
                let m0 = old(self).spec_funding(deposit_id)->Some_0;
                let m = final(self).spec_funding(deposit_id)->Some_0;
                &&& final(self).spec_funding(deposit_id) is Some
                &&& m == DepositFundingMeta {
                    status: FundingStatus::TopUpExpired,
                    last_intents_status: m.last_intents_status,
                    failure_reason: Some(reason),
                    updated_at_ms: now_ms,
                    ..m0
                }
                &&& m.last_intents_status == m0.last_intents_status
                &&& forall|a: Seq<char>| !(#[trigger] final(self).listed(a, deposit_id))
                &&& forall|id: u64| id != deposit_id
                    ==> #[trigger] final(self).spec_funding(id)
                        == old(self).spec_funding(id)
                &&& final(self).deposits == old(self).deposits
                &&& final(self).intents == old(self).intents
                &&& final(self).payment_methods == old(self).payment_methods
                &&& final(self).deposit_counter == old(self).deposit_counter
                &&& final(self).intent_counter == old(self).intent_counter
                &&& Self::eq_config(*old(self), *final(self))
            },
    {
        self.oracle_mark_terminal(caller, now_ms, deposit_id, quote_id, None, reason, true)
    }

    /// Shared terminal transition of `oracle_mark_failed_v2` and
    /// `oracle_mark_topup_expired_v2`.
    fn oracle_mark_terminal(&mut self, caller: String, now_ms: u64, deposit_id: u64,
        quote_id: String, intents_status: Option<String>, reason: String, expired: bool)
        -> (r: Result<(), EscrowError>)
        requires
            old(self).wf(),
        ensures
            final(self).wf(),
            old(self).quote_gens_bounded() ==> final(self).quote_gens_bounded(),
            r == Err::<(), EscrowError>(EscrowError::NotOracle)
                <==> !old(self).spec_is_oracle(caller@),
            r == Err::<(), EscrowError>(EscrowError::FundingNotFound)
                <==> old(self).spec_is_oracle(caller@)
                    && old(self).spec_funding(deposit_id) is None,
            r is Ok <==> old(self).spec_is_oracle(caller@)
                && old(self).spec_funding(deposit_id) is Some,
            r is Err ==> *final(self) == *old(self),
            (old(self).spec_is_oracle(caller@)
                && old(self).spec_funding(deposit_id) is Some
                && (old(self).spec_funding(deposit_id)->Some_0.status
                        != FundingStatus::AwaitingFunding
                    || !Self::quote_matches(old(self).spec_funding(deposit_id)->Some_0,
                        quote_id@)))
                ==> *final(self) == *old(self),
            (old(self).spec_is_oracle(caller@)
                && old(self).spec_funding(deposit_id) is Some
                && old(self).spec_funding(deposit_id)->Some_0.status
                    == FundingStatus::AwaitingFunding
                && Self::quote_matches(old(self).spec_funding(deposit_id)->Some_0,
                    quote_id@)) ==> {
                let m0 = old(self).spec_funding(deposit_id)->Some_0;
                let m = final(self).spec_funding(deposit_id)->Some_0;
                &&& final(self).spec_funding(deposit_id) is Some
                &&& m == DepositFundingMeta {
                    status: if expired { FundingStatus::TopUpExpired }
                        else { FundingStatus::Failed },
                    last_intents_status: if intents_status is Some { intents_status }
                        else { m0.last_intents_status },
                    failure_reason: Some(reason),
                    updated_at_ms: now_ms,
                    ..m0
                }
                &&& forall|a: Seq<char>| !(#[trigger] final(self).listed(a, deposit_id))
                &&& forall|id: u64| id != deposit_id
                    ==> #[trigger] final(self).spec_funding(id)
                        == old(self).spec_funding(id)
                &&& final(self).deposits == old(self).deposits
                &&& final(self).intents == old(self).intents
                &&& final(self).payment_methods == old(self).payment_methods
                &&& final(self).deposit_counter == old(self).deposit_counter
                &&& final(self).intent_counter == old(self).intent_counter
                &&& Self::eq_config(*old(self), *final(self))
            },
    {
        let ghost pre = *old(self);
        if !(caller == self.oracle_account_id) {
            return Err(EscrowError::NotOracle);
        }
        let fj = match self.find_funding_index(deposit_id) {
            None => {
                return Err(EscrowError::FundingNotFound);
            },
            Some(fj) => fj,
        };
        match self.deposit_funding[fj].1.status {
            FundingStatus::AwaitingFunding => { },
            _ => {
                return Ok(());
            },
        }
        match &self.deposit_funding[fj].1.quote_id {
            Some(cur) => {
                if !(*cur == quote_id) {
                    return Ok(());
                }
            },
            None => { },
        }
        proof {
            assert(pre.has_deposit(deposit_id));
        }
        let mut entry = self.deposit_funding.remove(fj);
        let asset = entry.1.asset_id.clone();
        entry.1.status = if expired { FundingStatus::TopUpExpired }
            else { FundingStatus::Failed };
        match intents_status {
            Some(s) => {
                entry.1.last_intents_status = Some(s);
            },
            None => { },
        }
        entry.1.failure_reason = Some(reason);
        entry.1.updated_at_ms = now_ms;
        let ghost m2 = entry.1;
        self.deposit_funding.insert(fj, entry);
        proof {
            assert(self.deposit_funding@ =~= pre.deposit_funding@.update(fj as int,
                (deposit_id, m2)));
            lemma_alist_find_update(pre.deposit_funding@, fj as int, m2);
            lemma_listed_same_index(pre, *self);
            assert forall|a: Seq<char>| #[trigger] self.listed(a, deposit_id)
                implies a == m2.asset_id@ by {
                assert(pre.listed(a, deposit_id));
                assert(pre.should_list(deposit_id));
            }
            if pre.quote_gens_bounded() {
                assert(pre.deposit_funding@[fj as int].1.quote_generation
                    <= pre.max_quote_rotations);
            }
        }
        let ghost mid = *self;
        self.remove_open_listing(&asset, deposit_id);
        proof {
            self.lemma_wf_after_terminal_transition(pre, mid, deposit_id, asset@);
        }
        Ok(())
    }

    /// Confirms that the pledged deposit was funded off-chain: re-bases the
    /// deposit's liquidity to the funded amount (`total = remaining =
    /// funded_amount`, intent bounds clamped into `[0, funded_amount]`
    /// preserving `min <= max`), marks the workflow `Funded` and opens the
    /// listing. Idempotent: a repeated call on a `Funded` workflow is a
    /// silent no-op. Rejected when the workflow is in another terminal
    /// state, the funding window never started, the top-up deadline has
    /// passed, or the quote identifier is stale.
    pub fn oracle_confirm_funding_v2(&mut self, caller: String, now_ms: u64,
        deposit_id: u64, quote_id: String, funded_amount: u128, origin_tx_hash: String,
        intents_status: String) -> (r: Result<(), EscrowError>)
        requires
            old(self).wf(),
        ensures
            final(self).wf(),
            old(self).quote_gens_bounded() ==> final(self).quote_gens_bounded(),
            r == Err::<(), EscrowError>(EscrowError::NotOracle)
                <==> !old(self).spec_is_oracle(caller@),
            r == Err::<(), EscrowError>(EscrowError::ZeroAmount)
                <==> old(self).spec_is_oracle(caller@) && funded_amount == 0,
            r == Err::<(), EscrowError>(EscrowError::DepositNotFound)
                <==> old(self).spec_is_oracle(caller@) && funded_amount > 0
                    && !old(self).has_deposit(deposit_id),
            r == Err::<(), EscrowError>(EscrowError::FundingNotFound)
                <==> old(self).spec_is_oracle(caller@) && funded_amount > 0
                    && old(self).has_deposit(deposit_id)
                    && old(self).spec_funding(deposit_id) is None,
            (old(self).spec_is_oracle(caller@) && funded_amount > 0
                && old(self).has_deposit(deposit_id)
                && old(self).spec_funding(deposit_id) is Some
                && old(self).spec_funding(deposit_id)->Some_0.status
                    == FundingStatus::Funded)
                ==> r is Ok && *final(self) == *old(self),
            r == Err::<(), EscrowError>(EscrowError::NotAwaitingFunding)
                <==> old(self).spec_is_oracle(caller@) && funded_amount > 0
                    && old(self).has_deposit(deposit_id)
                    && old(self).spec_funding(deposit_id) is Some
                    && old(self).spec_funding(deposit_id)->Some_0.status
                        != FundingStatus::Funded
                    && old(self).spec_funding(deposit_id)->Some_0.status
                        != FundingStatus::AwaitingFunding,
            r == Err::<(), EscrowError>(EscrowError::FundingWindowNotStarted)
                <==> old(self).spec_is_oracle(caller@) && funded_amount > 0
                    && old(self).has_deposit(deposit_id)
                    && old(self).spec_funding(deposit_id) is Some
                    && old(self).spec_funding(deposit_id)->Some_0.status
                        == FundingStatus::AwaitingFunding
                    && old(self).spec_funding(deposit_id)->Some_0.topup_deadline_at_ms == 0,
            r == Err::<(), EscrowError>(EscrowError::TopUpDeadlinePassed)
                <==> old(self).spec_is_oracle(caller@) && funded_amount > 0
                    && old(self).has_deposit(deposit_id)
                    && old(self).spec_funding(deposit_id) is Some
                    && old(self).spec_funding(deposit_id)->Some_0.status
                        == FundingStatus::AwaitingFunding
                    && old(self).spec_funding(deposit_id)->Some_0.topup_deadline_at_ms > 0
                    && now_ms > old(self).spec_funding(deposit_id)->Some_0
                        .topup_deadline_at_ms,
            r == Err::<(), EscrowError>(EscrowError::StaleQuote)
                <==> old(self).spec_is_oracle(caller@) && funded_amount > 0
                    && old(self).has_deposit(deposit_id)
                    && old(self).spec_funding(deposit_id) is Some
                    && old(self).spec_funding(deposit_id)->Some_0.status
                        == FundingStatus::AwaitingFunding
                    && old(self).spec_funding(deposit_id)->Some_0.topup_deadline_at_ms > 0
                    && now_ms <= old(self).spec_funding(deposit_id)->Some_0
                        .topup_deadline_at_ms
                    && !Self::quote_matches(old(self).spec_funding(deposit_id)->Some_0,
                        quote_id@),
            r is Ok <==> old(self).spec_is_oracle(caller@) && funded_amount > 0
                && old(self).has_deposit(deposit_id)
                && old(self).spec_funding(deposit_id) is Some
                && (old(self).spec_funding(deposit_id)->Some_0.status
                        == FundingStatus::Funded
                    || (old(self).spec_funding(deposit_id)->Some_0.status
                            == FundingStatus::AwaitingFunding
                        && old(self).spec_funding(deposit_id)->Some_0.topup_deadline_at_ms
                            > 0
                        && now_ms <= old(self).spec_funding(deposit_id)->Some_0
                            .topup_deadline_at_ms
                        && Self::quote_matches(old(self).spec_funding(deposit_id)->Some_0,
                            quote_id@))),
            r is Err ==> *final(self) == *old(self),
            (r is Ok && old(self).spec_funding(deposit_id)->Some_0.status
                == FundingStatus::AwaitingFunding) ==> {
                let m0 = old(self).spec_funding(deposit_id)->Some_0;
                let d0 = old(self).spec_deposit(deposit_id);
                let m = final(self).spec_funding(deposit_id)->Some_0;
                let d = final(self).spec_deposit(deposit_id);
                &&& final(self).spec_funding(deposit_id) is Some
                &&& m == DepositFundingMeta {
                    status: FundingStatus::Funded,
                    funded_amount: funded_amount,
                    origin_tx_hash: Some(origin_tx_hash),
                    last_intents_status: Some(intents_status),
                    failure_reason: None,
                    updated_at_ms: now_ms,
                    ..m0
                }
                &&& final(self).deposits@ == old(self).deposits@.update(deposit_id - 1, d)
                &&& d == Deposit {
                    total_deposit: funded_amount,
                    remaining_deposits: funded_amount,
                    min_intent_amount: d.min_intent_amount,
                    max_intent_amount: d.max_intent_amount,
                    ..d0
                }
                &&& d.min_intent_amount == if d0.min_intent_amount > funded_amount {
                    funded_amount
                } else {
                    d0.min_intent_amount
                }
                &&& d.max_intent_amount == {
                    let mx = if d0.max_intent_amount > funded_amount { funded_amount }
                        else { d0.max_intent_amount };
                    if mx < d.min_intent_amount { d.min_intent_amount } else { mx }
                }
                &&& forall|a: Seq<char>| #[trigger] final(self).listed(a, deposit_id)
                    <==> a == m0.asset_id@
                &&& forall|id: u64| id != deposit_id
                    ==> #[trigger] final(self).spec_funding(id)
                        == old(self).spec_funding(id)
                &&& final(self).intents == old(self).intents
                &&& final(self).payment_methods == old(self).payment_methods
                &&& final(self).deposit_counter == old(self).deposit_counter
                &&& final(self).intent_counter == old(self).intent_counter
                &&& Self::eq_config(*old(self), *final(self))
            },
    {
        let ghost pre = *old(self);
        if !(caller == self.oracle_account_id) {
            return Err(EscrowError::NotOracle);
        }
        if funded_amount == 0 {
            return Err(EscrowError::ZeroAmount);
        }
        if deposit_id < 1 || deposit_id > self.deposits.len() as u64 {
            return Err(EscrowError::DepositNotFound);
        }
        let di = (deposit_id - 1) as usize;
        let fj = match self.find_funding_index(deposit_id) {
            None => {
                return Err(EscrowError::FundingNotFound);
            },
            Some(fj) => fj,
        };
        match self.deposit_funding[fj].1.status {
            FundingStatus::Funded => {
                return Ok(());
            },
            FundingStatus::AwaitingFunding => { },
            _ => {
                return Err(EscrowError::NotAwaitingFunding);
            },
        }
        if self.deposit_funding[fj].1.topup_deadline_at_ms == 0 {
            return Err(EscrowError::FundingWindowNotStarted);
        }
        if now_ms > self.deposit_funding[fj].1.topup_deadline_at_ms {
            return Err(EscrowError::TopUpDeadlinePassed);
        }
        match &self.deposit_funding[fj].1.quote_id {
            Some(cur) => {
                if !(*cur == quote_id) {
                    return Err(EscrowError::StaleQuote);
                }
            },
            None => { },
        }

        let mut entry = self.deposit_funding.remove(fj);
        let asset = entry.1.asset_id.clone();
        entry.1.status = FundingStatus::Funded;
        entry.1.funded_amount = funded_amount;
        entry.1.origin_tx_hash = Some(origin_tx_hash);
        entry.1.last_intents_status = Some(intents_status);
        entry.1.failure_reason = None;
        entry.1.updated_at_ms = now_ms;
        let ghost m2 = entry.1;
        self.deposit_funding.insert(fj, entry);

        let mut d = self.deposits.remove(di);
        d.total_deposit = funded_amount;
        d.remaining_deposits = funded_amount;
        if d.min_intent_amount > funded_amount {
            d.min_intent_amount = funded_amount;
        }
        if d.max_intent_amount > funded_amount {
            d.max_intent_amount = funded_amount;
        }
        if d.max_intent_amount < d.min_intent_amount {
            d.max_intent_amount = d.min_intent_amount;
        }
        let ghost d2 = d;
        proof {
            assert(pre.spec_deposit(deposit_id).min_intent_amount > 0);
            assert(d2.min_intent_amount > 0);
            assert(d2.min_intent_amount <= d2.max_intent_amount);
        }
        self.deposits.insert(di, d);

        proof {
            assert(self.deposit_funding@ =~= pre.deposit_funding@.update(fj as int,
                (deposit_id, m2)));
            lemma_alist_find_update(pre.deposit_funding@, fj as int, m2);
            assert(self.deposits@ =~= pre.deposits@.update(deposit_id - 1, d2));
            assert(forall|i: int| 0 <= i < self.intents@.len()
                ==> signaled_contrib(#[trigger] self.intents@[i], deposit_id) == 0);
            lemma_sum_signaled_zero(self.intents@, deposit_id);
            assert(pre.spec_deposit(deposit_id).outstanding_intents == 0);
            assert(d2.outstanding_intents == 0);
            lemma_listed_same_index(pre, *self);
            assert forall|a: Seq<char>| #[trigger] self.listed(a, deposit_id)
                implies (self.spec_funding(deposit_id) matches Some(mm)
                    && a == mm.asset_id@) by {
                assert(pre.listed(a, deposit_id));
                assert(pre.should_list(deposit_id));
            }
        }
        let ghost mid = *self;
        self.add_open_listing(&asset, deposit_id);
        proof {
            assert forall|id: u64| id != deposit_id && self.has_deposit(id)
                implies #[trigger] self.spec_deposit(id) == pre.spec_deposit(id) by { }
            assert forall|id: u64| self.has_deposit(id)
                implies (#[trigger] self.spec_deposit(id)).outstanding_intents
                    == sum_signaled(self.intents@, id) by {
                if id != deposit_id {
                    assert(self.spec_deposit(id) == pre.spec_deposit(id));
                }
            }
            assert forall|i: int| 0 <= i < self.intents@.len()
                implies (match self.spec_funding((#[trigger] self.intents@[i]).deposit_id) {
                    Some(mm) => mm.status == FundingStatus::Funded,
                    None => true,
                }) by {
                if self.intents@[i].deposit_id != deposit_id {
                    assert(self.spec_funding(self.intents@[i].deposit_id)
                        == pre.spec_funding(self.intents@[i].deposit_id));
                }
            }
            assert forall|j: int| 0 <= j < self.deposit_funding@.len()
                implies self.has_deposit((#[trigger] self.deposit_funding@[j]).0) by {
                assert(self.deposit_funding@[j].0 == pre.deposit_funding@[j].0);
                assert(pre.has_deposit(pre.deposit_funding@[j].0));
            }
            assert(self.wf_core());
            assert forall|a: Seq<char>, id: u64| id != deposit_id
                implies (#[trigger] self.listed(a, id) <==> pre.listed(a, id)) by {
                assert(self.listed(a, id) <==> mid.listed(a, id));
                assert(mid.listed(a, id) <==> pre.listed(a, id));
            }
            assert(self.spec_funding(deposit_id) == Some(m2));
            assert forall|a: Seq<char>| #[trigger] self.listed(a, deposit_id)
                <==> (self.should_list(deposit_id) && a == m2.asset_id@) by {
                assert(self.should_list(deposit_id));
                if self.listed(a, deposit_id) {
                    assert(mid.listed(a, deposit_id) || a == asset@);
                    if mid.listed(a, deposit_id) {
                        assert(pre.listed(a, deposit_id));
                        assert(pre.should_list(deposit_id));
                    }
                }
                if a == m2.asset_id@ {
                    assert(self.listed(a, deposit_id));
                }
            }
            assert forall|a: Seq<char>, id: u64| #[trigger] self.listed(a, id)
                <==> self.should_list(id) && a == self.funding_asset(id) by {
                if id != deposit_id {
                    assert(self.listed(a, id) <==> pre.listed(a, id));
                    assert(self.spec_funding(id) == pre.spec_funding(id));
                    if self.has_deposit(id) {
                        assert(self.spec_deposit(id) == pre.spec_deposit(id));
                    }
                    assert(self.should_list(id) == pre.should_list(id));
                } else {
                    assert(self.funding_asset(deposit_id) == m2.asset_id@);
                }
            }
            assert(self.wf());
            if pre.quote_gens_bounded() {
                assert forall|j: int| 0 <= j < self.deposit_funding@.len()
                    implies (#[trigger] self.deposit_funding@[j]).1.quote_generation
                        <= self.max_quote_rotations by {
                    assert(pre.deposit_funding@[j].1.quote_generation
                        <= pre.max_quote_rotations);
                    if self.deposit_funding@[j].0 == deposit_id {
                        assert(self.deposit_funding@[j] == (deposit_id, m2));
                    } else {
                        assert(self.deposit_funding@[j] == pre.deposit_funding@[j]);
                    }
                }
            }
        }
        Ok(())
    }

    /// After the funding record of `deposit_id` moved from
    /// `AwaitingFunding` to a non-`Funded` status (all other tables
    /// untouched) and its listing was removed, the ledger is well-formed
    /// again.
    proof fn lemma_wf_after_terminal_transition(self, pre: Contract, mid: Contract,
        deposit_id: u64, asset: Seq<char>)
        requires
            pre.wf(),
            pre.has_deposit(deposit_id),
            pre.spec_funding(deposit_id) is Some,
            pre.spec_funding(deposit_id)->Some_0.status == FundingStatus::AwaitingFunding,
            mid.deposits == pre.deposits,
            mid.intents == pre.intents,
            mid.payment_methods == pre.payment_methods,
            mid.deposit_counter == pre.deposit_counter,
            mid.intent_counter == pre.intent_counter,
            mid.open_deposits_by_asset == pre.open_deposits_by_asset,
            mid.spec_funding(deposit_id) is Some,
            mid.spec_funding(deposit_id)->Some_0.status != FundingStatus::Funded,
            pre.quote_gens_bounded()
                ==> mid.spec_funding(deposit_id)->Some_0.quote_generation
                    <= pre.max_quote_rotations,
            forall|id: u64| id != deposit_id
                ==> #[trigger] mid.spec_funding(id) == pre.spec_funding(id),
            forall|j: int, k: int| 0 <= j < k < mid.deposit_funding@.len()
                ==> (#[trigger] mid.deposit_funding@[j]).0
                    != (#[trigger] mid.deposit_funding@[k]).0,
            forall|j: int| 0 <= j < mid.deposit_funding@.len()
                ==> (#[trigger] mid.deposit_funding@[j]).0 == pre.deposit_funding@[j].0,
            mid.deposit_funding@.len() == pre.deposit_funding@.len(),
            Self::eq_config(pre, mid),
            Self::eq_except_listing(mid, self),
            self.index_wf(),
            forall|a: Seq<char>, id: u64| #[trigger] self.listed(a, id)
                <==> mid.listed(a, id) && !(a == asset && id == deposit_id),
            forall|a: Seq<char>| #[trigger] mid.listed(a, deposit_id) ==> a == asset,
        ensures
            self.wf(),
            pre.quote_gens_bounded() ==> self.quote_gens_bounded(),
    {
        assert(self.deposits == pre.deposits);
        assert(self.intents == pre.intents);
        assert(self.deposit_funding == mid.deposit_funding);
        assert(self.deposits@ == pre.deposits@);
        assert(self.intents@ == pre.intents@);
        assert(self.deposit_funding@ == mid.deposit_funding@);
        assert(self.spec_funding(deposit_id) == mid.spec_funding(deposit_id));
        assert forall|id: u64| id != deposit_id
            implies #[trigger] self.spec_funding(id) == pre.spec_funding(id) by {
            assert(mid.spec_funding(id) == pre.spec_funding(id));
            assert(self.spec_funding(id) == mid.spec_funding(id));
        }
        assert forall|id: u64| self.has_deposit(id)
            implies (#[trigger] self.spec_deposit(id)).outstanding_intents
                == sum_signaled(self.intents@, id) by {
            assert(self.spec_deposit(id) == pre.spec_deposit(id));
        }
        assert forall|i: int| 0 <= i < self.intents@.len()
            implies (match self.spec_funding((#[trigger] self.intents@[i]).deposit_id) {
                Some(m) => m.status == FundingStatus::Funded,
                None => true,
            }) by {
            assert(self.intents@[i] == pre.intents@[i]);
            if self.intents@[i].deposit_id == deposit_id {
                assert(pre.spec_funding(deposit_id)->Some_0.status == FundingStatus::Funded);
            } else {
                assert(self.spec_funding(self.intents@[i].deposit_id)
                    == pre.spec_funding(self.intents@[i].deposit_id));
            }
        }
        assert forall|j: int| 0 <= j < self.deposit_funding@.len()
            implies self.has_deposit((#[trigger] self.deposit_funding@[j]).0) by {
            assert(self.deposit_funding@[j].0 == pre.deposit_funding@[j].0);
            assert(pre.has_deposit(pre.deposit_funding@[j].0));
        }
        assert(self.wf_core());
        lemma_listed_same_index(pre, mid);
        assert forall|a: Seq<char>, id: u64| #[trigger] self.listed(a, id)
            <==> self.should_list(id) && a == self.funding_asset(id) by {
            if id != deposit_id {
                assert(self.listed(a, id) <==> mid.listed(a, id));
                assert(mid.listed(a, id) <==> pre.listed(a, id));
                assert(self.spec_funding(id) == pre.spec_funding(id));
                assert(self.spec_deposit(id) == pre.spec_deposit(id));
                assert(self.should_list(id) == pre.should_list(id));
            } else {
                assert(!self.should_list(id));
                if self.listed(a, id) {
                    assert(mid.listed(a, id) && !(a == asset && id == deposit_id));
                    assert(pre.listed(a, id));
                    assert(a == pre.funding_asset(id));
                    assert(pre.should_list(id));
                }
            }
        }
        if pre.quote_gens_bounded() {
            assert forall|j: int| 0 <= j < self.deposit_funding@.len()
                implies (#[trigger] self.deposit_funding@[j]).1.quote_generation
                    <= self.max_quote_rotations by {
                let key = self.deposit_funding@[j].0;
                assert(key == pre.deposit_funding@[j].0);
                assert(pre.deposit_funding@[j].1.quote_generation
                    <= pre.max_quote_rotations);
                self.lemma_funding_at_key(j, key);
                pre.lemma_funding_at_key(j, key);
                if key == deposit_id {
                    assert(self.deposit_funding@[j].1
                        == self.spec_funding(deposit_id)->Some_0);
                }
            }
        }
    }

    /// In a table with distinct keys, the lookup of position `j`'s key
    /// yields position `j`'s record.
    proof fn lemma_funding_at_key(self, j: int, key: u64)
        requires
            0 <= j < self.deposit_funding@.len(),
            self.deposit_funding@[j].0 == key,
            forall|a: int, b: int| 0 <= a < b < self.deposit_funding@.len()
                ==> (#[trigger] self.deposit_funding@[a]).0
                    != (#[trigger] self.deposit_funding@[b]).0,
        ensures
            self.spec_funding(key) == Some(self.deposit_funding@[j].1),
    {
        Self::lemma_alist_at_key(self.deposit_funding@, j, key);
    }

    proof fn lemma_alist_at_key(s: Seq<(u64, DepositFundingMeta)>, j: int, key: u64)
        requires
            0 <= j < s.len(),
            s[j].0 == key,
            forall|a: int, b: int| 0 <= a < b < s.len()
                ==> (#[trigger] s[a]).0 != (#[trigger] s[b]).0,
        ensures
            crate::state::alist_find(s, key) == Some(s[j].1),
        decreases s.len(),
    {
        if j > 0 {
            assert(s[0].0 != key);
            assert(s.drop_first()[j - 1] == s[j]);
            Self::lemma_alist_at_key(s.drop_first(), j - 1, key);
        }
    }
}

} // verus!
