//! State migration: upgrades a ledger from before the funding workflow
//! existed, carrying every record over and starting the workflow tables
//! empty.

use vstd::prelude::*;
use crate::errors::EscrowError;
use crate::records::{Deposit, Intent, PaymentMethod};
use crate::state::{Contract, intent_hash_seq, sum_signaled, DEFAULT_TOPUP_WINDOW_MS,
    DEFAULT_MAX_QUOTE_ROTATIONS};

verus! {

/// The ledger as stored before the funding workflow existed.
pub struct OldContract {
    pub owner_id: String,
    pub deposit_counter: u64,
    pub deposits: Vec<Deposit>,
    pub intent_counter: u64,
    pub intents: Vec<Intent>,
    pub payment_methods: Vec<PaymentMethod>,
    pub protocol_fee: u128,
    pub protocol_fee_recipient: String,
    pub max_intents_per_deposit: u8,
    pub intent_expiration_period: u64,
}

impl OldContract {
    /// Well-formedness of a stored pre-workflow ledger: the same record
    /// invariants the upgraded ledger keeps, without any funding state.
    pub open spec fn wf(self) -> bool {
        &&& self.deposit_counter == self.deposits@.len()
        &&& forall|i: int| 0 <= i < self.deposits@.len()
            ==> (#[trigger] self.deposits@[i]).deposit_id == i + 1
        &&& forall|i: int| 0 <= i < self.deposits@.len()
            ==> Contract::deposit_ok(#[trigger] self.deposits@[i])
        &&& self.intent_counter == self.intents@.len()
        &&& forall|i: int| 0 <= i < self.intents@.len()
            ==> (#[trigger] self.intents@[i]).intent_hash@ == intent_hash_seq((i + 1) as nat)
        &&& forall|i: int| 0 <= i < self.intents@.len()
            ==> 1 <= (#[trigger] self.intents@[i]).deposit_id
                && self.intents@[i].deposit_id <= self.deposits@.len()
        &&& forall|i: int| 0 <= i < self.intents@.len()
            ==> (#[trigger] self.intents@[i]).amount > 0
        &&& forall|id: u64| 1 <= id <= self.deposits@.len()
            ==> (#[trigger] self.deposits@[id - 1]).outstanding_intents
                == sum_signaled(self.intents@, id)
        &&& forall|j: int, k: int| 0 <= j < k < self.payment_methods@.len()
            ==> (#[trigger] self.payment_methods@[j]).name@
                != (#[trigger] self.payment_methods@[k]).name@
    }
}

impl Contract {
    /// Upgrades a stored pre-workflow ledger: every record carries over,
    /// the funding tables start empty, the oracle identity and storage fee
    /// are set, and a zero top-up window falls back to the default. Owner
    /// only.
    pub fn migrate_v2(old_state: OldContract, caller: String, oracle_account_id: String,
        storage_fee_yocto: u128, topup_window_ms: u64) -> (r: Result<Contract, EscrowError>)
        requires
            old_state.wf(),
        ensures
            r is Ok <==> caller@ == old_state.owner_id@,
            r == Err::<Contract, EscrowError>(EscrowError::NotOwner)
                <==> caller@ != old_state.owner_id@,
            r matches Ok(c) ==> {
                &&& c.wf()
                &&& c.quote_gens_bounded()
                &&& c.owner_id == old_state.owner_id
                &&& c.deposit_counter == old_state.deposit_counter
                &&& c.deposits == old_state.deposits
                &&& c.intent_counter == old_state.intent_counter
                &&& c.intents == old_state.intents
                &&& c.payment_methods == old_state.payment_methods
                &&& c.protocol_fee == old_state.protocol_fee
                &&& c.protocol_fee_recipient == old_state.protocol_fee_recipient
                &&& c.max_intents_per_deposit == old_state.max_intents_per_deposit
                &&& c.intent_expiration_period == old_state.intent_expiration_period
                &&& c.deposit_funding@.len() == 0
                &&& c.open_deposits_by_asset@.len() == 0
                &&& c.oracle_account_id == oracle_account_id
                &&& c.v2_storage_fee_yocto == storage_fee_yocto
                &&& c.topup_window_ms == (if topup_window_ms == 0 {
                    DEFAULT_TOPUP_WINDOW_MS as u64
                } else {
                    topup_window_ms
                })
                &&& c.max_quote_rotations == DEFAULT_MAX_QUOTE_ROTATIONS
            },
    {
        if !(caller == old_state.owner_id) {
            return Err(EscrowError::NotOwner);
        }
        let c = Contract {
            owner_id: old_state.owner_id,
            deposit_counter: old_state.deposit_counter,
            deposits: old_state.deposits,
            intent_counter: old_state.intent_counter,
            intents: old_state.intents,
            payment_methods: old_state.payment_methods,
            protocol_fee: old_state.protocol_fee,
            protocol_fee_recipient: old_state.protocol_fee_recipient,
            max_intents_per_deposit: old_state.max_intents_per_deposit,
            intent_expiration_period: old_state.intent_expiration_period,
            deposit_funding: Vec::new(),
            open_deposits_by_asset: Vec::new(),
            oracle_account_id,
            v2_storage_fee_yocto: storage_fee_yocto,
            topup_window_ms: if topup_window_ms == 0 {
                DEFAULT_TOPUP_WINDOW_MS
            } else {
                topup_window_ms
            },
            max_quote_rotations: DEFAULT_MAX_QUOTE_ROTATIONS,
        };
        proof {
            assert(forall|id: u64| #[trigger] c.spec_funding(id) is None);
            assert(forall|asset: Seq<char>, id: u64| !(#[trigger] c.listed(asset, id)));
            assert(forall|id: u64| !(#[trigger] c.should_list(id)));
        }
        Ok(c)
    }
}

} // verus!
