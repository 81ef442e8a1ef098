//! The escrow ledger's seller operations: creating a directly funded
//! deposit, withdrawing its spare liquidity, and delegating its management.

use vstd::prelude::*;
use crate::errors::EscrowError;
use crate::payparse::{has_wellformed_pm, extract_payment_details};
use crate::records::Deposit;
use crate::state::{Contract, lemma_alist_find_absent, lemma_listed_same_index,
    sum_signaled, signaled_contrib, lemma_sum_signaled_zero};

verus! {

impl Contract {
    /// Creates a directly funded deposit: the whole amount is immediately
    /// available as `remaining` liquidity, indexed under the caller as
    /// depositor.
    ///
    /// Returns the fresh deposit identifier, or the first failing
    /// validation: zero amount, zero minimum, minimum above maximum, no
    /// payment methods, or no well-formed `platform::tagname` entry.
    pub fn create_deposit(&mut self, caller: String, timestamp: u64, token: String,
        amount: u128, min_intent_amount: u128, max_intent_amount: u128,
        payment_methods: Vec<String>, delegate: Option<String>)
        -> (r: Result<u64, EscrowError>)
        requires
            old(self).wf(),
            old(self).deposit_counter < u64::MAX,
        ensures
            final(self).wf(),
            r == Err::<u64, EscrowError>(EscrowError::ZeroAmount) <==> amount == 0,
            r == Err::<u64, EscrowError>(EscrowError::ZeroMinIntentAmount)
                <==> amount > 0 && min_intent_amount == 0,
            r == Err::<u64, EscrowError>(EscrowError::MinAboveMax)
                <==> amount > 0 && 0 < min_intent_amount
                    && min_intent_amount > max_intent_amount,
            r == Err::<u64, EscrowError>(EscrowError::NoPaymentMethods)
                <==> amount > 0 && 0 < min_intent_amount
                    && min_intent_amount <= max_intent_amount
                    && payment_methods@.len() == 0,
            r == Err::<u64, EscrowError>(EscrowError::MissingPlatformTag)
                <==> amount > 0 && 0 < min_intent_amount
                    && min_intent_amount <= max_intent_amount
                    && payment_methods@.len() > 0 && !has_wellformed_pm(payment_methods@),
            r is Ok <==> amount > 0 && 0 < min_intent_amount
                && min_intent_amount <= max_intent_amount
                && payment_methods@.len() > 0 && has_wellformed_pm(payment_methods@),
            r is Err ==> *final(self) == *old(self),
            r matches Ok(id) ==> {
                &&& id == old(self).deposit_counter + 1
                &&& final(self).deposit_counter == id
                &&& final(self).deposits@ == old(self).deposits@.push(Deposit {
                    deposit_id: id,
                    depositor: caller,
                    delegate: delegate,
                    token: token,
                    total_deposit: amount,
                    remaining_deposits: amount,
                    outstanding_intents: 0,
                    min_intent_amount: min_intent_amount,
                    max_intent_amount: max_intent_amount,
                    timestamp: timestamp,
                    payment_methods: payment_methods,
                })
                &&& final(self).intents == old(self).intents
                &&& final(self).deposit_funding == old(self).deposit_funding
                &&& final(self).open_deposits_by_asset == old(self).open_deposits_by_asset
                &&& final(self).payment_methods == old(self).payment_methods
                &&& final(self).intent_counter == old(self).intent_counter
                &&& Self::eq_config(*old(self), *final(self))
            },
    {
        if amount == 0 {
            return Err(EscrowError::ZeroAmount);
        }
        if min_intent_amount == 0 {
            return Err(EscrowError::ZeroMinIntentAmount);
        }
        if min_intent_amount > max_intent_amount {
            return Err(EscrowError::MinAboveMax);
        }
        if payment_methods.len() == 0 {
            return Err(EscrowError::NoPaymentMethods);
        }
        if extract_payment_details(&payment_methods).is_none() {
            return Err(EscrowError::MissingPlatformTag);
        }
        let deposit_id = self.deposit_counter + 1;
        self.deposit_counter = deposit_id;
        let deposit = Deposit {
            deposit_id,
            depositor: caller,
            delegate,
            token,
            total_deposit: amount,
            remaining_deposits: amount,
            outstanding_intents: 0,
            min_intent_amount,
            max_intent_amount,
            timestamp,
            payment_methods,
        };
        self.deposits.push(deposit);
        proof {
            self.lemma_wf_after_fresh_deposit(*old(self), deposit_id);
        }
        Ok(deposit_id)
    }

    /// The state after appending a deposit with the next identifier and no
    /// intents or funding record is well-formed again.
    proof fn lemma_wf_after_fresh_deposit(self, pre: Contract, deposit_id: u64)
        requires
            pre.wf(),
            pre.deposit_counter < u64::MAX,
            deposit_id == pre.deposit_counter + 1,
            self.deposit_counter == deposit_id,
            self.deposits@.len() == pre.deposits@.len() + 1,
            self.deposits@ == pre.deposits@.push(self.deposits@.last()),
            self.deposits@.last().deposit_id == deposit_id,
            self.deposits@.last().outstanding_intents == 0,
            Self::deposit_ok(self.deposits@.last()),
            self.intents == pre.intents,
            self.deposit_funding == pre.deposit_funding,
            self.open_deposits_by_asset == pre.open_deposits_by_asset,
            self.payment_methods == pre.payment_methods,
            self.intent_counter == pre.intent_counter,
        ensures
            self.wf(),
    {
        assert(forall|j: int| 0 <= j < self.deposit_funding@.len()
            ==> (#[trigger] self.deposit_funding@[j]).0 != deposit_id);
        lemma_alist_find_absent(self.deposit_funding@, deposit_id);
        assert(forall|id: u64| id != deposit_id
            ==> #[trigger] self.spec_funding(id) == pre.spec_funding(id));
        assert(forall|i: int| 0 <= i < self.intents@.len()
            ==> signaled_contrib(#[trigger] self.intents@[i], deposit_id) == 0);
        lemma_sum_signaled_zero(self.intents@, deposit_id);
        assert(forall|id: u64| pre.has_deposit(id)
            ==> #[trigger] self.spec_deposit(id) == pre.spec_deposit(id));
        assert forall|id: u64| self.has_deposit(id)
            implies (#[trigger] self.spec_deposit(id)).outstanding_intents
                == sum_signaled(self.intents@, id) by {
            if id != deposit_id {
                assert(pre.spec_deposit(id).outstanding_intents
                    == sum_signaled(pre.intents@, id));
            }
        }
        assert forall|asset: Seq<char>, id: u64| #[trigger] self.listed(asset, id)
            <==> self.should_list(id) && asset == self.funding_asset(id) by {
            assert(self.listed(asset, id) == pre.listed(asset, id));
            if id == deposit_id {
                assert(!self.should_list(id));
                assert(!pre.should_list(id));
            } else {
                assert(self.should_list(id) == pre.should_list(id));
            }
        }
    }

    /// Withdraws all spare liquidity of a deposit: zeroes `remaining` and
    /// drops the deposit from the open-listing index. Only the depositor or
    /// its delegate may withdraw, and only while no intents are outstanding.
    pub fn withdraw_deposit(&mut self, caller: String, deposit_id: u64)
        -> (r: Result<u128, EscrowError>)
        requires
            old(self).wf(),
        ensures
            final(self).wf(),
            r == Err::<u128, EscrowError>(EscrowError::DepositNotFound)
                <==> !old(self).has_deposit(deposit_id),
            r == Err::<u128, EscrowError>(EscrowError::NotManager)
                <==> old(self).has_deposit(deposit_id)
                    && !Self::spec_is_manager(caller@, old(self).spec_deposit(deposit_id)),
            r == Err::<u128, EscrowError>(EscrowError::OutstandingIntents)
                <==> old(self).has_deposit(deposit_id)
                    && Self::spec_is_manager(caller@, old(self).spec_deposit(deposit_id))
                    && old(self).spec_deposit(deposit_id).outstanding_intents > 0,
            r is Ok <==> old(self).has_deposit(deposit_id)
                && Self::spec_is_manager(caller@, old(self).spec_deposit(deposit_id))
                && old(self).spec_deposit(deposit_id).outstanding_intents == 0,
            r is Err ==> *final(self) == *old(self),
            r matches Ok(freed) ==> {
                &&& freed == old(self).spec_deposit(deposit_id).remaining_deposits
                &&& final(self).deposits@ == old(self).deposits@.update(deposit_id - 1,
                    Deposit {
                        remaining_deposits: 0,
                        ..old(self).spec_deposit(deposit_id)
                    })
                &&& final(self).intents == old(self).intents
                &&& final(self).deposit_funding == old(self).deposit_funding
                &&& final(self).payment_methods == old(self).payment_methods
                &&& final(self).deposit_counter == old(self).deposit_counter
                &&& final(self).intent_counter == old(self).intent_counter
                &&& Self::eq_config(*old(self), *final(self))
                &&& forall|a: Seq<char>| !(#[trigger] final(self).listed(a, deposit_id))
            },
    {
        if deposit_id < 1 || deposit_id > self.deposits.len() as u64 {
            return Err(EscrowError::DepositNotFound);
        }
        let di = (deposit_id - 1) as usize;
        if !Self::is_deposit_manager(&caller, &self.deposits[di]) {
            return Err(EscrowError::NotManager);
        }
        if self.deposits[di].outstanding_intents > 0 {
            return Err(EscrowError::OutstandingIntents);
        }
        let ghost pre = *self;
        let freed = self.deposits[di].remaining_deposits;
        let mut updated = self.deposits.remove(di);
        updated.remaining_deposits = 0;
        self.deposits.insert(di, updated);
        proof {
            assert(self.deposits@ =~= pre.deposits@.update(deposit_id - 1, Deposit {
                remaining_deposits: 0,
                ..pre.spec_deposit(deposit_id)
            }));
        }
        proof {
            lemma_listed_same_index(pre, *self);
            assert forall|a: Seq<char>| #[trigger] self.listed(a, deposit_id)
                implies (self.spec_funding(deposit_id) matches Some(m)
                    && a == m.asset_id@) by {
                assert(pre.listed(a, deposit_id));
                assert(pre.should_list(deposit_id) && a == pre.funding_asset(deposit_id));
                assert(self.spec_funding(deposit_id) == pre.spec_funding(deposit_id));
            }
        }
        let ghost mid = *self;
        self.sync_open_listing(deposit_id);
        proof {
            assert forall|a: Seq<char>, id: u64| id != deposit_id
                implies (#[trigger] self.listed(a, id) <==> pre.listed(a, id)) by {
                assert(self.listed(a, id) <==> mid.listed(a, id));
                assert(mid.listed(a, id) <==> pre.listed(a, id));
            }
            self.lemma_wf_after_liquidity_change(pre, deposit_id);
        }
        Ok(freed)
    }

    /// After one deposit's `remaining`/`outstanding` amounts changed (its
    /// other fields, all intents, funding records and configuration
    /// untouched) and the open-listing index was re-synced for it, the
    /// ledger is well-formed again.
    proof fn lemma_wf_after_liquidity_change(self, pre: Contract, deposit_id: u64)
        requires
            pre.wf(),
            pre.has_deposit(deposit_id),
            self.deposits@ == pre.deposits@.update(deposit_id - 1,
                self.deposits@[deposit_id - 1]),
            self.deposits@[deposit_id - 1].deposit_id == deposit_id,
            Self::deposit_ok(self.deposits@[deposit_id - 1]),
            self.deposits@[deposit_id - 1].outstanding_intents
                == sum_signaled(self.intents@, deposit_id),
            self.intents == pre.intents,
            self.deposit_funding == pre.deposit_funding,
            self.payment_methods == pre.payment_methods,
            self.deposit_counter == pre.deposit_counter,
            self.intent_counter == pre.intent_counter,
            self.index_wf(),
            forall|a: Seq<char>, id: u64| id != deposit_id
                ==> (#[trigger] self.listed(a, id) <==> pre.listed(a, id)),
            self.spec_funding(deposit_id) is None
                ==> forall|a: Seq<char>| #[trigger] self.listed(a, deposit_id)
                    <==> pre.listed(a, deposit_id),
            self.spec_funding(deposit_id) matches Some(m)
                ==> forall|a: Seq<char>| #[trigger] self.listed(a, deposit_id)
                    <==> (self.should_list(deposit_id) && a == m.asset_id@),
        ensures
            self.wf(),
    {
        assert(self.deposits@.len() == pre.deposits@.len());
        assert(forall|id: u64| #[trigger] self.spec_funding(id) == pre.spec_funding(id));
        assert(forall|id: u64| pre.has_deposit(id) && id != deposit_id
            ==> #[trigger] self.spec_deposit(id) == pre.spec_deposit(id));
        assert forall|asset: Seq<char>, id: u64| #[trigger] self.listed(asset, id)
            <==> self.should_list(id) && asset == self.funding_asset(id) by {
            if id != deposit_id {
                assert(self.listed(asset, id) == pre.listed(asset, id));
                assert(self.should_list(id) == pre.should_list(id));
            } else {
                match self.spec_funding(deposit_id) {
                    Some(m) => { },
                    None => {
                        assert(self.listed(asset, id) == pre.listed(asset, id));
                        assert(!pre.should_list(id));
                        assert(!self.should_list(id));
                    },
                }
            }
        }
    }

    /// Sets or replaces the deposit's delegate. Only the depositor may do
    /// so.
    pub fn set_delegate(&mut self, caller: String, deposit_id: u64, delegate: String)
        -> (r: Result<(), EscrowError>)
        requires
            old(self).wf(),
        ensures
            final(self).wf(),
            r == Err::<(), EscrowError>(EscrowError::DepositNotFound)
                <==> !old(self).has_deposit(deposit_id),
            r == Err::<(), EscrowError>(EscrowError::NotDepositor)
                <==> old(self).has_deposit(deposit_id)
                    && old(self).spec_deposit(deposit_id).depositor@ != caller@,
            r is Ok <==> old(self).has_deposit(deposit_id)
                && old(self).spec_deposit(deposit_id).depositor@ == caller@,
            r is Err ==> *final(self) == *old(self),
            r is Ok ==> {
                &&& final(self).deposits@ == old(self).deposits@.update(deposit_id - 1,
                    Deposit {
                        delegate: Some(delegate),
                        ..old(self).spec_deposit(deposit_id)
                    })
                &&& final(self).intents == old(self).intents
                &&& final(self).deposit_funding == old(self).deposit_funding
                &&& final(self).open_deposits_by_asset == old(self).open_deposits_by_asset
                &&& final(self).payment_methods == old(self).payment_methods
                &&& final(self).deposit_counter == old(self).deposit_counter
                &&& final(self).intent_counter == old(self).intent_counter
                &&& Self::eq_config(*old(self), *final(self))
            },
    {
        if deposit_id < 1 || deposit_id > self.deposits.len() as u64 {
            return Err(EscrowError::DepositNotFound);
        }
        let di = (deposit_id - 1) as usize;
        if !(caller == self.deposits[di].depositor) {
            return Err(EscrowError::NotDepositor);
        }
        let ghost pre = *self;
        let mut updated = self.deposits.remove(di);
        updated.delegate = Some(delegate);
        self.deposits.insert(di, updated);
        proof {
            assert(self.deposits@ =~= pre.deposits@.update(deposit_id - 1, Deposit {
                delegate: self.deposits@[deposit_id - 1].delegate,
                ..pre.spec_deposit(deposit_id)
            }));
            assert(forall|id: u64| #[trigger] self.spec_funding(id) == pre.spec_funding(id));
            assert(forall|id: u64| pre.has_deposit(id) && id != deposit_id
                ==> #[trigger] self.spec_deposit(id) == pre.spec_deposit(id));
            assert(self.spec_deposit(deposit_id).remaining_deposits
                == pre.spec_deposit(deposit_id).remaining_deposits);
            lemma_listed_same_index(pre, *self);
            assert forall|asset: Seq<char>, id: u64| #[trigger] self.listed(asset, id)
                <==> self.should_list(id) && asset == self.funding_asset(id) by {
                assert(self.listed(asset, id) == pre.listed(asset, id));
                assert(self.should_list(id) == pre.should_list(id));
            }
        }
        Ok(())
    }
}

} // verus!
