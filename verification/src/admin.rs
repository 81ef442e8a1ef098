//! Owner-only configuration: protocol fee, intent cap, oracle identity,
//! storage fee, top-up window and quote-rotation bound.

use vstd::prelude::*;
use crate::errors::EscrowError;
use crate::records::V2Config;
use crate::state::Contract;

verus! {

impl Contract {
    /// The contract owner's account.
    pub fn get_owner(&self) -> (r: &String)
        ensures
            r == &self.owner_id,
    {
        &self.owner_id
    }

    /// A snapshot of the funding-workflow configuration.
    pub fn get_v2_config(&self) -> (r: V2Config)
        ensures
            r.oracle_account_id == self.oracle_account_id,
            r.storage_fee_yocto == self.v2_storage_fee_yocto,
            r.topup_window_ms == self.topup_window_ms,
            r.max_quote_rotations == self.max_quote_rotations,
    {
        V2Config {
            oracle_account_id: self.oracle_account_id.clone(),
            storage_fee_yocto: self.v2_storage_fee_yocto,
            topup_window_ms: self.topup_window_ms,
            max_quote_rotations: self.max_quote_rotations,
        }
    }

    /// Sets the protocol fee in basis points; capped at 500 (5%). Owner
    /// only.
    pub fn set_protocol_fee(&mut self, caller: String, fee: u128)
        -> (r: Result<(), EscrowError>)
        requires
            old(self).wf(),
        ensures
            final(self).wf(),
            r == Err::<(), EscrowError>(EscrowError::NotOwner)
                <==> old(self).owner_id@ != caller@,
            r == Err::<(), EscrowError>(EscrowError::FeeAboveCap)
                <==> old(self).owner_id@ == caller@ && fee > 500,
            r is Ok <==> old(self).owner_id@ == caller@ && fee <= 500,
            r is Err ==> *final(self) == *old(self),
            r is Ok ==> *final(self) == (Contract { protocol_fee: fee, ..*old(self) }),
    {
        let ghost pre = *old(self);
        if !(caller == self.owner_id) {
            return Err(EscrowError::NotOwner);
        }
        if fee > 500 {
            return Err(EscrowError::FeeAboveCap);
        }
        self.protocol_fee = fee;
        proof {
            self.lemma_wf_same_tables(pre);
        }
        Ok(())
    }

    /// Sets the per-deposit intent cap. Owner only.
    pub fn set_max_intents_per_deposit(&mut self, caller: String, max: u8)
        -> (r: Result<(), EscrowError>)
        requires
            old(self).wf(),
        ensures
            final(self).wf(),
            r == Err::<(), EscrowError>(EscrowError::NotOwner)
                <==> old(self).owner_id@ != caller@,
            r is Ok <==> old(self).owner_id@ == caller@,
            r is Err ==> *final(self) == *old(self),
            r is Ok ==> *final(self) == (Contract {
                max_intents_per_deposit: max,
                ..*old(self)
            }),
    {
        let ghost pre = *old(self);
        if !(caller == self.owner_id) {
            return Err(EscrowError::NotOwner);
        }
        self.max_intents_per_deposit = max;
        proof {
            self.lemma_wf_same_tables(pre);
        }
        Ok(())
    }

    /// Replaces the oracle account identity. Owner only.
    pub fn set_oracle_account_id(&mut self, caller: String, oracle_account_id: String)
        -> (r: Result<(), EscrowError>)
        requires
            old(self).wf(),
        ensures
            final(self).wf(),
            r == Err::<(), EscrowError>(EscrowError::NotOwner)
                <==> old(self).owner_id@ != caller@,
            r is Ok <==> old(self).owner_id@ == caller@,
            r is Err ==> *final(self) == *old(self),
            r is Ok ==> *final(self) == (Contract {
                oracle_account_id: oracle_account_id,
                ..*old(self)
            }),
    {
        let ghost pre = *old(self);
        if !(caller == self.owner_id) {
            return Err(EscrowError::NotOwner);
        }
        self.oracle_account_id = oracle_account_id;
        proof {
            self.lemma_wf_same_tables(pre);
        }
        Ok(())
    }

    /// Sets the collateral required to register a funding-path deposit.
    /// Owner only.
    pub fn set_v2_storage_fee_yocto(&mut self, caller: String, fee: u128)
        -> (r: Result<(), EscrowError>)
        requires
            old(self).wf(),
        ensures
            final(self).wf(),
            r == Err::<(), EscrowError>(EscrowError::NotOwner)
                <==> old(self).owner_id@ != caller@,
            r is Ok <==> old(self).owner_id@ == caller@,
            r is Err ==> *final(self) == *old(self),
            r is Ok ==> *final(self) == (Contract {
                v2_storage_fee_yocto: fee,
                ..*old(self)
            }),
    {
        let ghost pre = *old(self);
        if !(caller == self.owner_id) {
            return Err(EscrowError::NotOwner);
        }
        self.v2_storage_fee_yocto = fee;
        proof {
            self.lemma_wf_same_tables(pre);
        }
        Ok(())
    }

    /// Sets the length of the top-up window; must be positive. Owner only.
    pub fn set_topup_window_ms(&mut self, caller: String, topup_window_ms: u64)
        -> (r: Result<(), EscrowError>)
        requires
            old(self).wf(),
        ensures
            final(self).wf(),
            r == Err::<(), EscrowError>(EscrowError::NotOwner)
                <==> old(self).owner_id@ != caller@,
            r == Err::<(), EscrowError>(EscrowError::ZeroTopupWindow)
                <==> old(self).owner_id@ == caller@ && topup_window_ms == 0,
            r is Ok <==> old(self).owner_id@ == caller@ && topup_window_ms > 0,
            r is Err ==> *final(self) == *old(self),
            r is Ok ==> *final(self) == (Contract {
                topup_window_ms: topup_window_ms,
                ..*old(self)
            }),
    {
        let ghost pre = *old(self);
        if !(caller == self.owner_id) {
            return Err(EscrowError::NotOwner);
        }
        if topup_window_ms == 0 {
            return Err(EscrowError::ZeroTopupWindow);
        }
        self.topup_window_ms = topup_window_ms;
        proof {
            self.lemma_wf_same_tables(pre);
        }
        Ok(())
    }

    /// Sets the quote-rotation bound; must be positive. Owner only. An
    /// already-issued generation above the new bound stays as it is: the
    /// bound only gates further rotations.
    pub fn set_max_quote_rotations(&mut self, caller: String, max_quote_rotations: u16)
        -> (r: Result<(), EscrowError>)
        requires
            old(self).wf(),
        ensures
            final(self).wf(),
            r == Err::<(), EscrowError>(EscrowError::NotOwner)
                <==> old(self).owner_id@ != caller@,
            r == Err::<(), EscrowError>(EscrowError::ZeroMaxQuoteRotations)
                <==> old(self).owner_id@ == caller@ && max_quote_rotations == 0,
            r is Ok <==> old(self).owner_id@ == caller@ && max_quote_rotations > 0,
            r is Err ==> *final(self) == *old(self),
            r is Ok ==> *final(self) == (Contract {
                max_quote_rotations: max_quote_rotations,
                ..*old(self)
            }),
    {
        let ghost pre = *old(self);
        if !(caller == self.owner_id) {
            return Err(EscrowError::NotOwner);
        }
        if max_quote_rotations == 0 {
            return Err(EscrowError::ZeroMaxQuoteRotations);
        }
        self.max_quote_rotations = max_quote_rotations;
        proof {
            self.lemma_wf_same_tables(pre);
        }
        Ok(())
    }
}

} // verus!
