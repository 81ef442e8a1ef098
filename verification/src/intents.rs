//! The intent engine: buyers reserve liquidity by signaling intents, then
//! each intent resolves exactly once — cancelled (liquidity returned),
//! fulfilled, or released (liquidity consumed and a settlement request
//! issued to the external signing channel).

use vstd::prelude::*;
use crate::errors::EscrowError;
use crate::records::{Deposit, Intent, IntentStatus, FundingStatus, SettlementRequest};
use crate::state::{Contract, intent_hash_seq, sum_signaled, signaled_contrib,
    count_intents_on, contains_string, vec_string_contains, lemma_sum_signaled_push,
    lemma_sum_signaled_update, lemma_sum_signaled_element, lemma_listed_same_index};
use crate::text::{u64_to_dec, trim_spec, trim_str};

verus! {

impl Contract {
    /// A deposit accepts new intents only when it has no funding workflow
    /// or its workflow has confirmed funding.
    pub open spec fn funding_gate_open(self, deposit_id: u64) -> bool {
        match self.spec_funding(deposit_id) {
            Some(m) => m.status == FundingStatus::Funded,
            None => true,
        }
    }

    /// Reserves `amount` of a deposit's liquidity for the caller: moves it
    /// from `remaining` to `outstanding`, records a fresh `Signaled` intent
    /// and returns its hash.
    ///
    /// Fails on an unknown deposit, an unfunded listing, an amount outside
    /// the deposit's `[min, max]` bounds or above its spare liquidity, an
    /// unaccepted payment method, or a deposit already carrying the maximum
    /// number of intents.
    pub fn signal_intent(&mut self, caller: String, timestamp: u64, deposit_id: u64,
        amount: u128, payment_method: String, currency_code: String, recipient: String,
        chain: String) -> (r: Result<String, EscrowError>)
        requires
            old(self).wf(),
            old(self).intent_counter < u64::MAX,
        ensures
            final(self).wf(),
            r == Err::<String, EscrowError>(EscrowError::DepositNotFound)
                <==> !old(self).has_deposit(deposit_id),
            r == Err::<String, EscrowError>(EscrowError::ListingNotFunded)
                <==> old(self).has_deposit(deposit_id)
                    && !old(self).funding_gate_open(deposit_id),
            r == Err::<String, EscrowError>(EscrowError::AmountBelowMinimum)
                <==> old(self).has_deposit(deposit_id)
                    && old(self).funding_gate_open(deposit_id)
                    && amount < old(self).spec_deposit(deposit_id).min_intent_amount,
            r == Err::<String, EscrowError>(EscrowError::AmountAboveMaximum)
                <==> old(self).has_deposit(deposit_id)
                    && old(self).funding_gate_open(deposit_id)
                    && amount >= old(self).spec_deposit(deposit_id).min_intent_amount
                    && amount > old(self).spec_deposit(deposit_id).max_intent_amount,
            r == Err::<String, EscrowError>(EscrowError::InsufficientLiquidity)
                <==> old(self).has_deposit(deposit_id)
                    && old(self).funding_gate_open(deposit_id)
                    && old(self).spec_deposit(deposit_id).min_intent_amount <= amount
                    && amount <= old(self).spec_deposit(deposit_id).max_intent_amount
                    && amount > old(self).spec_deposit(deposit_id).remaining_deposits,
            r == Err::<String, EscrowError>(EscrowError::PaymentMethodNotSupported)
                <==> old(self).has_deposit(deposit_id)
                    && old(self).funding_gate_open(deposit_id)
                    && old(self).spec_deposit(deposit_id).min_intent_amount <= amount
                    && amount <= old(self).spec_deposit(deposit_id).max_intent_amount
                    && amount <= old(self).spec_deposit(deposit_id).remaining_deposits
                    && !contains_string(old(self).spec_deposit(deposit_id).payment_methods@,
                        payment_method@),
            r == Err::<String, EscrowError>(EscrowError::MaxIntentsReached)
                <==> old(self).has_deposit(deposit_id)
                    && old(self).funding_gate_open(deposit_id)
                    && old(self).spec_deposit(deposit_id).min_intent_amount <= amount
                    && amount <= old(self).spec_deposit(deposit_id).max_intent_amount
                    && amount <= old(self).spec_deposit(deposit_id).remaining_deposits
                    && contains_string(old(self).spec_deposit(deposit_id).payment_methods@,
                        payment_method@)
                    && count_intents_on(old(self).intents@, deposit_id)
                        >= old(self).max_intents_per_deposit,
            r is Ok <==> old(self).has_deposit(deposit_id)
                && old(self).funding_gate_open(deposit_id)
                && old(self).spec_deposit(deposit_id).min_intent_amount <= amount
                && amount <= old(self).spec_deposit(deposit_id).max_intent_amount
                && amount <= old(self).spec_deposit(deposit_id).remaining_deposits
                && contains_string(old(self).spec_deposit(deposit_id).payment_methods@,
                    payment_method@)
                && count_intents_on(old(self).intents@, deposit_id)
                    < old(self).max_intents_per_deposit,
            r is Err ==> *final(self) == *old(self),
            r matches Ok(h) ==> {
                let d = old(self).spec_deposit(deposit_id);
                let it = final(self).intents@.last();
                &&& h@ == intent_hash_seq((old(self).intent_counter + 1) as nat)
                &&& final(self).intent_counter == old(self).intent_counter + 1
                &&& final(self).intents@ == old(self).intents@.push(it)
                &&& it.intent_hash@ == h@
                &&& it.buyer == caller
                &&& it.deposit_id == deposit_id
                &&& it.amount == amount
                &&& it.timestamp == timestamp
                &&& it.payment_method == payment_method
                &&& it.currency_code == currency_code
                &&& it.status == IntentStatus::Signaled
                &&& it.recipient == recipient
                &&& it.chain == chain
                &&& final(self).deposits@ == old(self).deposits@.update(deposit_id - 1,
                    Deposit {
                        remaining_deposits: (d.remaining_deposits - amount) as u128,
                        outstanding_intents: (d.outstanding_intents + amount) as u128,
                        ..d
                    })
                &&& final(self).deposit_funding == old(self).deposit_funding
                &&& final(self).payment_methods == old(self).payment_methods
                &&& final(self).deposit_counter == old(self).deposit_counter
                &&& Self::eq_config(*old(self), *final(self))
            },
    {
        let ghost pre = *old(self);
        if deposit_id < 1 || deposit_id > self.deposits.len() as u64 {
            return Err(EscrowError::DepositNotFound);
        }
        let di = (deposit_id - 1) as usize;
        let gate_open = match self.find_funding_index(deposit_id) {
            Some(fj) => match self.deposit_funding[fj].1.status {
                FundingStatus::Funded => true,
                _ => false,
            },
            None => true,
        };
        if !gate_open {
            return Err(EscrowError::ListingNotFunded);
        }
        if amount < self.deposits[di].min_intent_amount {
            return Err(EscrowError::AmountBelowMinimum);
        }
        if amount > self.deposits[di].max_intent_amount {
            return Err(EscrowError::AmountAboveMaximum);
        }
        if amount > self.deposits[di].remaining_deposits {
            return Err(EscrowError::InsufficientLiquidity);
        }
        if !vec_string_contains(&self.deposits[di].payment_methods, &payment_method) {
            return Err(EscrowError::PaymentMethodNotSupported);
        }
        let cap = self.max_intents_per_deposit as usize;
        if self.count_deposit_intents(deposit_id) >= cap {
            return Err(EscrowError::MaxIntentsReached);
        }

        let mut d = self.deposits.remove(di);
        proof {
            assert(d == pre.spec_deposit(deposit_id));
            assert(d.remaining_deposits + d.outstanding_intents <= d.total_deposit);
        }
        d.remaining_deposits = d.remaining_deposits - amount;
        d.outstanding_intents = d.outstanding_intents + amount;
        self.deposits.insert(di, d);
        proof {
            assert(self.deposits@ =~= pre.deposits@.update(deposit_id - 1, Deposit {
                remaining_deposits: (pre.spec_deposit(deposit_id).remaining_deposits
                    - amount) as u128,
                outstanding_intents: (pre.spec_deposit(deposit_id).outstanding_intents
                    + amount) as u128,
                ..pre.spec_deposit(deposit_id)
            }));
        }

        let new_counter = self.intent_counter + 1;
        self.intent_counter = new_counter;
        let num = u64_to_dec(new_counter);
        let mut hash = String::new();
        hash.append("intent:");
        hash.append(num.as_str());
        proof {
            assert(hash@ =~= intent_hash_seq(new_counter as nat));
        }
        let returned_hash = hash.clone();
        let intent = Intent {
            intent_hash: hash,
            buyer: caller,
            deposit_id,
            amount,
            timestamp,
            payment_method,
            currency_code,
            status: IntentStatus::Signaled,
            recipient,
            chain,
        };
        self.intents.push(intent);

        proof {
            lemma_listed_same_index(pre, *self);
            assert forall|a: Seq<char>| #[trigger] self.listed(a, deposit_id)
                implies (self.spec_funding(deposit_id) matches Some(m)
                    && a == m.asset_id@) by {
                assert(pre.listed(a, deposit_id));
                assert(pre.should_list(deposit_id) && a == pre.funding_asset(deposit_id));
                assert(self.spec_funding(deposit_id) == pre.spec_funding(deposit_id));
            }
        }
        let ghost mid = *self;
        self.sync_open_listing(deposit_id);
        proof {
            let x = mid.intents@.last();
            assert forall|i: int| 0 <= i < self.intents@.len()
                implies (#[trigger] self.intents@[i]).intent_hash@
                    == intent_hash_seq((i + 1) as nat) by {
                if i < pre.intents@.len() {
                    assert(self.intents@[i] == pre.intents@[i]);
                } else {
                    assert(self.intents@[i] == x);
                }
            }
            assert forall|id: u64| self.has_deposit(id)
                implies (#[trigger] self.spec_deposit(id)).outstanding_intents
                    == sum_signaled(self.intents@, id) by {
                lemma_sum_signaled_push(pre.intents@, x, id);
                if id != deposit_id {
                    assert(self.spec_deposit(id) == pre.spec_deposit(id));
                    assert(signaled_contrib(x, id) == 0);
                }
            }
            assert forall|a: Seq<char>, id: u64| id != deposit_id
                implies (#[trigger] self.listed(a, id) <==> pre.listed(a, id)) by {
                assert(self.listed(a, id) <==> mid.listed(a, id));
                assert(mid.listed(a, id) <==> pre.listed(a, id));
            }
            self.lemma_wf_from_sync(pre, deposit_id);
        }
        Ok(returned_hash)
    }

    /// Returns a `Signaled` intent's reservation: moves its amount back
    /// from `outstanding` to `remaining` and marks it `Cancelled`. Only the
    /// buyer who signaled it may cancel.
    pub fn cancel_intent(&mut self, caller: String, intent_hash: String)
        -> (r: Result<(), EscrowError>)
        requires
            old(self).wf(),
        ensures
            final(self).wf(),
            r == Err::<(), EscrowError>(EscrowError::IntentNotFound)
                <==> !old(self).has_intent(intent_hash@),
            r == Err::<(), EscrowError>(EscrowError::NotBuyer)
                <==> old(self).has_intent(intent_hash@)
                    && old(self).spec_intent(intent_hash@).buyer@ != caller@,
            r == Err::<(), EscrowError>(EscrowError::NotSignaled)
                <==> old(self).has_intent(intent_hash@)
                    && old(self).spec_intent(intent_hash@).buyer@ == caller@
                    && old(self).spec_intent(intent_hash@).status != IntentStatus::Signaled,
            r is Ok <==> old(self).has_intent(intent_hash@)
                && old(self).spec_intent(intent_hash@).buyer@ == caller@
                && old(self).spec_intent(intent_hash@).status == IntentStatus::Signaled,
            r is Err ==> *final(self) == *old(self),
            r is Ok ==> {
                let i = old(self).intent_index(intent_hash@);
                let it = old(self).intents@[i];
                let d = old(self).spec_deposit(it.deposit_id);
                &&& final(self).intents@ == old(self).intents@.update(i, Intent {
                    status: IntentStatus::Cancelled,
                    ..it
                })
                &&& final(self).deposits@ == old(self).deposits@.update(it.deposit_id - 1,
                    Deposit {
                        remaining_deposits: (d.remaining_deposits + it.amount) as u128,
                        outstanding_intents: (d.outstanding_intents - it.amount) as u128,
                        ..d
                    })
                &&& final(self).deposit_funding == old(self).deposit_funding
                &&& final(self).payment_methods == old(self).payment_methods
                &&& final(self).deposit_counter == old(self).deposit_counter
                &&& final(self).intent_counter == old(self).intent_counter
                &&& Self::eq_config(*old(self), *final(self))
            },
    {
        let ghost pre = *old(self);
        let oi = self.find_intent_index(&intent_hash);
        let i = match oi {
            None => {
                return Err(EscrowError::IntentNotFound);
            },
            Some(i) => i,
        };
        if !(self.intents[i].buyer == caller) {
            return Err(EscrowError::NotBuyer);
        }
        match self.intents[i].status {
            IntentStatus::Signaled => { },
            _ => {
                return Err(EscrowError::NotSignaled);
            },
        }
        let deposit_id = self.intents[i].deposit_id;
        let amount = self.intents[i].amount;
        let nd = self.deposits.len();
        proof {
            assert(pre.has_deposit(deposit_id));
            assert(1 <= deposit_id && deposit_id as int <= nd as int);
        }
        let di = (deposit_id - 1) as usize;
        proof {
            lemma_sum_signaled_element(pre.intents@, i as int, deposit_id);
            assert(pre.spec_deposit(deposit_id).outstanding_intents >= amount);
        }
        let mut d = self.deposits.remove(di);
        d.remaining_deposits = d.remaining_deposits + amount;
        d.outstanding_intents = d.outstanding_intents - amount;
        self.deposits.insert(di, d);
        proof {
            assert(self.deposits@ =~= pre.deposits@.update(deposit_id - 1, Deposit {
                remaining_deposits: (pre.spec_deposit(deposit_id).remaining_deposits
                    + amount) as u128,
                outstanding_intents: (pre.spec_deposit(deposit_id).outstanding_intents
                    - amount) as u128,
                ..pre.spec_deposit(deposit_id)
            }));
        }
        let mut it = self.intents.remove(i);
        it.status = IntentStatus::Cancelled;
        self.intents.insert(i, it);
        proof {
            assert(self.intents@ =~= pre.intents@.update(i as int, Intent {
                status: IntentStatus::Cancelled,
                ..pre.intents@[i as int]
            }));
        }
        proof {
            lemma_listed_same_index(pre, *self);
            assert forall|a: Seq<char>| #[trigger] self.listed(a, deposit_id)
                implies (self.spec_funding(deposit_id) matches Some(m)
                    && a == m.asset_id@) by {
                assert(pre.listed(a, deposit_id));
                assert(pre.should_list(deposit_id) && a == pre.funding_asset(deposit_id));
                assert(self.spec_funding(deposit_id) == pre.spec_funding(deposit_id));
            }
        }
        let ghost mid = *self;
        self.sync_open_listing(deposit_id);
        proof {
            self.lemma_wf_after_intent_resolution(pre, mid, i as int, deposit_id);
        }
        Ok(())
    }

    /// Consumes a `Signaled` intent: marks it `Fulfilled`, removes its
    /// amount from `outstanding` without refunding it, and returns the
    /// settlement request to hand to the external signing channel. In this
    /// core's trust model any caller may trigger fulfillment; authorization
    /// lives with the off-chain proof channel.
    pub fn fulfill_intent(&mut self, intent_hash: String)
        -> (r: Result<SettlementRequest, EscrowError>)
        requires
            old(self).wf(),
        ensures
            final(self).wf(),
            r == Err::<SettlementRequest, EscrowError>(EscrowError::IntentNotFound)
                <==> !old(self).has_intent(intent_hash@),
            r == Err::<SettlementRequest, EscrowError>(EscrowError::NotSignaled)
                <==> old(self).has_intent(intent_hash@)
                    && old(self).spec_intent(intent_hash@).status != IntentStatus::Signaled,
            r is Ok <==> old(self).has_intent(intent_hash@)
                && old(self).spec_intent(intent_hash@).status == IntentStatus::Signaled,
            r is Err ==> *final(self) == *old(self),
            r matches Ok(req) ==> {
                let i = old(self).intent_index(intent_hash@);
                let it = old(self).intents@[i];
                let d = old(self).spec_deposit(it.deposit_id);
                &&& req.intent_hash@ == it.intent_hash@
                &&& req.amount == it.amount
                &&& req.chain == it.chain
                &&& req.recipient == it.recipient
                &&& final(self).intents@ == old(self).intents@.update(i, Intent {
                    status: IntentStatus::Fulfilled,
                    ..it
                })
                &&& final(self).deposits@ == old(self).deposits@.update(it.deposit_id - 1,
                    Deposit {
                        outstanding_intents: (d.outstanding_intents - it.amount) as u128,
                        ..d
                    })
                &&& final(self).deposit_funding == old(self).deposit_funding
                &&& final(self).open_deposits_by_asset == old(self).open_deposits_by_asset
                &&& final(self).payment_methods == old(self).payment_methods
                &&& final(self).deposit_counter == old(self).deposit_counter
                &&& final(self).intent_counter == old(self).intent_counter
                &&& Self::eq_config(*old(self), *final(self))
            },
    {
        self.resolve_consuming(intent_hash, false)
    }

    /// Submits an opaque off-chain payment proof and fulfills the intent.
    /// The proof must be non-blank and at most 8192 characters after
    /// trimming; its real verification is the attestation collaborator's
    /// responsibility.
    pub fn fulfill_intent_with_proof(&mut self, intent_hash: String, proof_payload: String)
        -> (r: Result<SettlementRequest, EscrowError>)
        requires
            old(self).wf(),
        ensures
            final(self).wf(),
            r == Err::<SettlementRequest, EscrowError>(EscrowError::EmptyProof)
                <==> trim_spec(proof_payload@).len() == 0,
            r == Err::<SettlementRequest, EscrowError>(EscrowError::ProofTooLarge)
                <==> trim_spec(proof_payload@).len() > 8192,
            0 < trim_spec(proof_payload@).len() <= 8192 ==> {
                &&& (r == Err::<SettlementRequest, EscrowError>(EscrowError::IntentNotFound)
                    <==> !old(self).has_intent(intent_hash@))
                &&& (r == Err::<SettlementRequest, EscrowError>(EscrowError::NotSignaled)
                    <==> old(self).has_intent(intent_hash@)
                        && old(self).spec_intent(intent_hash@).status
                            != IntentStatus::Signaled)
                &&& (r is Ok <==> old(self).has_intent(intent_hash@)
                    && old(self).spec_intent(intent_hash@).status == IntentStatus::Signaled)
            },
            r is Err ==> *final(self) == *old(self),
            r matches Ok(req) ==> {
                let i = old(self).intent_index(intent_hash@);
                let it = old(self).intents@[i];
                let d = old(self).spec_deposit(it.deposit_id);
                &&& req.intent_hash@ == it.intent_hash@
                &&& req.amount == it.amount
                &&& req.chain == it.chain
                &&& req.recipient == it.recipient
                &&& final(self).intents@ == old(self).intents@.update(i, Intent {
                    status: IntentStatus::Fulfilled,
                    ..it
                })
                &&& final(self).deposits@ == old(self).deposits@.update(it.deposit_id - 1,
                    Deposit {
                        outstanding_intents: (d.outstanding_intents - it.amount) as u128,
                        ..d
                    })
                &&& final(self).deposit_funding == old(self).deposit_funding
                &&& final(self).open_deposits_by_asset == old(self).open_deposits_by_asset
                &&& final(self).payment_methods == old(self).payment_methods
                &&& final(self).deposit_counter == old(self).deposit_counter
                &&& final(self).intent_counter == old(self).intent_counter
                &&& Self::eq_config(*old(self), *final(self))
            },
    {
        let normalized = trim_str(proof_payload.as_str());
        let len = normalized.as_str().unicode_len();
        if len == 0 {
            return Err(EscrowError::EmptyProof);
        }
        if len > 8192 {
            return Err(EscrowError::ProofTooLarge);
        }
        self.fulfill_intent(intent_hash)
    }

    /// Releases a `Signaled` intent on the seller's authority: the same
    /// liquidity effect and settlement request as fulfillment, marked
    /// `Released`. Only the deposit's manager may release.
    pub fn release_intent(&mut self, caller: String, intent_hash: String)
        -> (r: Result<SettlementRequest, EscrowError>)
        requires
            old(self).wf(),
        ensures
            final(self).wf(),
            r == Err::<SettlementRequest, EscrowError>(EscrowError::IntentNotFound)
                <==> !old(self).has_intent(intent_hash@),
            r == Err::<SettlementRequest, EscrowError>(EscrowError::NotManager)
                <==> old(self).has_intent(intent_hash@)
                    && !Self::spec_is_manager(caller@, old(self).spec_deposit(
                        old(self).spec_intent(intent_hash@).deposit_id)),
            r == Err::<SettlementRequest, EscrowError>(EscrowError::NotSignaled)
                <==> old(self).has_intent(intent_hash@)
                    && Self::spec_is_manager(caller@, old(self).spec_deposit(
                        old(self).spec_intent(intent_hash@).deposit_id))
                    && old(self).spec_intent(intent_hash@).status != IntentStatus::Signaled,
            r is Ok <==> old(self).has_intent(intent_hash@)
                && Self::spec_is_manager(caller@, old(self).spec_deposit(
                    old(self).spec_intent(intent_hash@).deposit_id))
                && old(self).spec_intent(intent_hash@).status == IntentStatus::Signaled,
            r is Err ==> *final(self) == *old(self),
            r matches Ok(req) ==> {
                let i = old(self).intent_index(intent_hash@);
                let it = old(self).intents@[i];
                let d = old(self).spec_deposit(it.deposit_id);
                &&& req.intent_hash@ == it.intent_hash@
                &&& req.amount == it.amount
                &&& req.chain == it.chain
                &&& req.recipient == it.recipient
                &&& final(self).intents@ == old(self).intents@.update(i, Intent {
                    status: IntentStatus::Released,
                    ..it
                })
                &&& final(self).deposits@ == old(self).deposits@.update(it.deposit_id - 1,
                    Deposit {
                        outstanding_intents: (d.outstanding_intents - it.amount) as u128,
                        ..d
                    })
                &&& final(self).deposit_funding == old(self).deposit_funding
                &&& final(self).open_deposits_by_asset == old(self).open_deposits_by_asset
                &&& final(self).payment_methods == old(self).payment_methods
                &&& final(self).deposit_counter == old(self).deposit_counter
                &&& final(self).intent_counter == old(self).intent_counter
                &&& Self::eq_config(*old(self), *final(self))
            },
    {
        let ghost pre = *old(self);
        let oi = self.find_intent_index(&intent_hash);
        let i = match oi {
            None => {
                return Err(EscrowError::IntentNotFound);
            },
            Some(i) => i,
        };
        let deposit_id = self.intents[i].deposit_id;
        let nd = self.deposits.len();
        proof {
            assert(pre.has_deposit(deposit_id));
            assert(1 <= deposit_id && deposit_id as int <= nd as int);
        }
        let di = (deposit_id - 1) as usize;
        if !Self::is_deposit_manager(&caller, &self.deposits[di]) {
            return Err(EscrowError::NotManager);
        }
        match self.intents[i].status {
            IntentStatus::Signaled => { },
            _ => {
                return Err(EscrowError::NotSignaled);
            },
        }
        self.consume_signaled(i, Ghost(pre), false)
    }

    /// Shared resolution path of `fulfill_intent` and `release_intent`:
    /// looks the intent up, requires it `Signaled`, consumes its
    /// reservation and returns the settlement request. `released` picks the
    /// terminal status.
    fn resolve_consuming(&mut self, intent_hash: String, released: bool)
        -> (r: Result<SettlementRequest, EscrowError>)
        requires
            old(self).wf(),
        ensures
            final(self).wf(),
            r == Err::<SettlementRequest, EscrowError>(EscrowError::IntentNotFound)
                <==> !old(self).has_intent(intent_hash@),
            r == Err::<SettlementRequest, EscrowError>(EscrowError::NotSignaled)
                <==> old(self).has_intent(intent_hash@)
                    && old(self).spec_intent(intent_hash@).status != IntentStatus::Signaled,
            r is Ok <==> old(self).has_intent(intent_hash@)
                && old(self).spec_intent(intent_hash@).status == IntentStatus::Signaled,
            r is Err ==> *final(self) == *old(self),
            r matches Ok(req) ==> {
                let i = old(self).intent_index(intent_hash@);
                let it = old(self).intents@[i];
                let d = old(self).spec_deposit(it.deposit_id);
                &&& req.intent_hash@ == it.intent_hash@
                &&& req.amount == it.amount
                &&& req.chain == it.chain
                &&& req.recipient == it.recipient
                &&& final(self).intents@ == old(self).intents@.update(i, Intent {
                    status: if released { IntentStatus::Released }
                        else { IntentStatus::Fulfilled },
                    ..it
                })
                &&& final(self).deposits@ == old(self).deposits@.update(it.deposit_id - 1,
                    Deposit {
                        outstanding_intents: (d.outstanding_intents - it.amount) as u128,
                        ..d
                    })
                &&& final(self).deposit_funding == old(self).deposit_funding
                &&& final(self).open_deposits_by_asset == old(self).open_deposits_by_asset
                &&& final(self).payment_methods == old(self).payment_methods
                &&& final(self).deposit_counter == old(self).deposit_counter
                &&& final(self).intent_counter == old(self).intent_counter
                &&& Self::eq_config(*old(self), *final(self))
            },
    {
        let ghost pre = *old(self);
        let oi = self.find_intent_index(&intent_hash);
        let i = match oi {
            None => {
                return Err(EscrowError::IntentNotFound);
            },
            Some(i) => i,
        };
        match self.intents[i].status {
            IntentStatus::Signaled => { },
            _ => {
                return Err(EscrowError::NotSignaled);
            },
        }
        self.consume_signaled(i, Ghost(pre), !released)
    }

    /// Moves the `Signaled` intent at position `i` to its terminal consumed
    /// status, deducts its amount from its deposit's `outstanding`, and
    /// builds the settlement request. The deposit's `remaining` liquidity
    /// is untouched, so the open-listing index needs no re-sync.
    fn consume_signaled(&mut self, i: usize, Ghost(pre): Ghost<Contract>, fulfilled: bool)
        -> (r: Result<SettlementRequest, EscrowError>)
        requires
            old(self).wf(),
            *old(self) == pre,
            i < old(self).intents@.len(),
            old(self).intents@[i as int].status == IntentStatus::Signaled,
        ensures
            final(self).wf(),
            r is Ok,
            r matches Ok(req) ==> {
                let it = pre.intents@[i as int];
                let d = pre.spec_deposit(it.deposit_id);
                &&& req.intent_hash@ == it.intent_hash@
                &&& req.amount == it.amount
                &&& req.chain == it.chain
                &&& req.recipient == it.recipient
                &&& final(self).intents@ == pre.intents@.update(i as int, Intent {
                    status: if fulfilled { IntentStatus::Fulfilled }
                        else { IntentStatus::Released },
                    ..it
                })
                &&& final(self).deposits@ == pre.deposits@.update(it.deposit_id - 1,
                    Deposit {
                        outstanding_intents: (d.outstanding_intents - it.amount) as u128,
                        ..d
                    })
                &&& final(self).deposit_funding == pre.deposit_funding
                &&& final(self).open_deposits_by_asset == pre.open_deposits_by_asset
                &&& final(self).payment_methods == pre.payment_methods
                &&& final(self).deposit_counter == pre.deposit_counter
                &&& final(self).intent_counter == pre.intent_counter
                &&& Self::eq_config(pre, *final(self))
            },
    {
        let deposit_id = self.intents[i].deposit_id;
        let amount = self.intents[i].amount;
        let nd = self.deposits.len();
        proof {
            assert(pre.has_deposit(deposit_id));
            assert(1 <= deposit_id && deposit_id as int <= nd as int);
        }
        let di = (deposit_id - 1) as usize;
        proof {
            lemma_sum_signaled_element(pre.intents@, i as int, deposit_id);
            assert(pre.spec_deposit(deposit_id).outstanding_intents >= amount);
        }
        let mut it = self.intents.remove(i);
        let req = SettlementRequest {
            intent_hash: it.intent_hash.clone(),
            amount: it.amount,
            chain: it.chain.clone(),
            recipient: it.recipient.clone(),
        };
        it.status = if fulfilled { IntentStatus::Fulfilled } else { IntentStatus::Released };
        self.intents.insert(i, it);
        proof {
            assert(self.intents@ =~= pre.intents@.update(i as int, Intent {
                status: if fulfilled { IntentStatus::Fulfilled }
                    else { IntentStatus::Released },
                ..pre.intents@[i as int]
            }));
        }
        let mut d = self.deposits.remove(di);
        d.outstanding_intents = d.outstanding_intents - amount;
        self.deposits.insert(di, d);
        proof {
            assert(self.deposits@ =~= pre.deposits@.update(deposit_id - 1, Deposit {
                outstanding_intents: (pre.spec_deposit(deposit_id).outstanding_intents
                    - amount) as u128,
                ..pre.spec_deposit(deposit_id)
            }));
            lemma_listed_same_index(pre, *self);
            assert forall|a: Seq<char>, id: u64| id != deposit_id
                implies (#[trigger] self.listed(a, id) <==> self.listed(a, id)) by { }
            match self.spec_funding(deposit_id) {
                Some(m) => {
                    assert forall|a: Seq<char>| #[trigger] self.listed(a, deposit_id)
                        <==> (self.should_list(deposit_id) && a == m.asset_id@) by {
                        assert(self.listed(a, deposit_id) <==> pre.listed(a, deposit_id));
                        assert(pre.listed(a, deposit_id)
                            <==> (pre.should_list(deposit_id)
                                && a == pre.funding_asset(deposit_id)));
                        assert(self.spec_funding(deposit_id) == pre.spec_funding(deposit_id));
                        assert(self.spec_deposit(deposit_id).remaining_deposits
                            == pre.spec_deposit(deposit_id).remaining_deposits);
                        assert(self.should_list(deposit_id) == pre.should_list(deposit_id));
                    }
                },
                None => { },
            }
            self.lemma_wf_after_intent_resolution(pre, *self, i as int, deposit_id);
        }
        Ok(req)
    }

    /// After one `Signaled` intent was moved to a terminal status, its
    /// deposit's amounts adjusted accordingly, and the open-listing index
    /// re-synced for that deposit, the ledger is well-formed again.
    proof fn lemma_wf_after_intent_resolution(self, pre: Contract, mid: Contract, i: int,
        deposit_id: u64)
        requires
            pre.wf(),
            0 <= i < pre.intents@.len(),
            pre.intents@[i].status == IntentStatus::Signaled,
            pre.intents@[i].deposit_id == deposit_id,
            mid.intents@ == pre.intents@.update(i, mid.intents@[i]),
            mid.intents@[i].intent_hash == pre.intents@[i].intent_hash,
            mid.intents@[i].deposit_id == deposit_id,
            mid.intents@[i].amount == pre.intents@[i].amount,
            mid.intents@[i].status != IntentStatus::Signaled,
            mid.intent_counter == pre.intent_counter,
            mid.deposit_counter == pre.deposit_counter,
            mid.deposits@ == pre.deposits@.update(deposit_id - 1,
                mid.deposits@[deposit_id - 1]),
            mid.deposits@[deposit_id - 1].deposit_id == deposit_id,
            Self::deposit_ok(mid.deposits@[deposit_id - 1]),
            mid.deposits@[deposit_id - 1].outstanding_intents
                == pre.spec_deposit(deposit_id).outstanding_intents
                    - pre.intents@[i].amount,
            mid.deposit_funding == pre.deposit_funding,
            mid.payment_methods == pre.payment_methods,
            mid.open_deposits_by_asset == pre.open_deposits_by_asset,
            Self::eq_except_listing(mid, self),
            self.index_wf(),
            forall|a: Seq<char>, id: u64| id != deposit_id
                ==> (#[trigger] self.listed(a, id) <==> mid.listed(a, id)),
            self.spec_funding(deposit_id) is None
                ==> forall|a: Seq<char>| #[trigger] self.listed(a, deposit_id)
                    <==> mid.listed(a, deposit_id),
            self.spec_funding(deposit_id) matches Some(m)
                ==> forall|a: Seq<char>| #[trigger] self.listed(a, deposit_id)
                    <==> (self.should_list(deposit_id) && a == m.asset_id@),
        ensures
            self.wf(),
    {
        let x = mid.intents@[i];
        assert forall|k: int| 0 <= k < self.intents@.len()
            implies (#[trigger] self.intents@[k]).intent_hash@
                == intent_hash_seq((k + 1) as nat) by {
            if k != i {
                assert(self.intents@[k] == pre.intents@[k]);
            }
        }
        assert forall|id: u64| self.has_deposit(id)
            implies (#[trigger] self.spec_deposit(id)).outstanding_intents
                == sum_signaled(self.intents@, id) by {
            lemma_sum_signaled_update(pre.intents@, i, x, id);
            if id != deposit_id {
                assert(self.spec_deposit(id) == pre.spec_deposit(id));
                assert(signaled_contrib(x, id) == 0);
                assert(signaled_contrib(pre.intents@[i], id) == 0);
            } else {
                assert(signaled_contrib(pre.intents@[i], id) == pre.intents@[i].amount);
                assert(signaled_contrib(x, id) == 0);
            }
        }
        assert forall|k: int| 0 <= k < self.intents@.len()
            implies self.has_deposit((#[trigger] self.intents@[k]).deposit_id)
                && self.intents@[k].amount > 0
                && (match self.spec_funding(self.intents@[k].deposit_id) {
                    Some(m) => m.status == FundingStatus::Funded,
                    None => true,
                }) by {
            if k != i {
                assert(self.intents@[k] == pre.intents@[k]);
            }
            assert(self.intents@[k].deposit_id == pre.intents@[k].deposit_id);
            assert(self.intents@[k].amount == pre.intents@[k].amount);
            assert(self.spec_funding(self.intents@[k].deposit_id)
                == pre.spec_funding(self.intents@[k].deposit_id));
        }
        lemma_listed_same_index(pre, mid);
        assert forall|a: Seq<char>, id: u64| id != deposit_id
            implies (#[trigger] self.listed(a, id) <==> pre.listed(a, id)) by {
            assert(self.listed(a, id) <==> mid.listed(a, id));
            assert(mid.listed(a, id) <==> pre.listed(a, id));
        }
        if self.spec_funding(deposit_id) is None {
            assert forall|a: Seq<char>| #[trigger] self.listed(a, deposit_id)
                <==> pre.listed(a, deposit_id) by {
                assert(self.listed(a, deposit_id) <==> mid.listed(a, deposit_id));
                assert(mid.listed(a, deposit_id) <==> pre.listed(a, deposit_id));
            }
        }
        self.lemma_wf_from_sync(pre, deposit_id);
    }
}

} // verus!
