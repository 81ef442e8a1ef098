//! The payment-method registry: a small owner-administered catalog of
//! accepted payment-method names, each naming an external verifier
//! capability and the currencies it accepts.

use vstd::prelude::*;
use crate::errors::EscrowError;
use crate::records::PaymentMethod;
use crate::state::Contract;

verus! {

/// The first registry entry named `name`, scanning from the front.
pub open spec fn pm_find(s: Seq<PaymentMethod>, name: Seq<char>) -> Option<PaymentMethod>
    decreases s.len(),
{
    if s.len() == 0 {
        None
    } else if s[0].name@ == name {
        Some(s[0])
    } else {
        pm_find(s.drop_first(), name)
    }
}

proof fn lemma_pm_find_absent(s: Seq<PaymentMethod>, name: Seq<char>)
    requires
        forall|j: int| 0 <= j < s.len() ==> (#[trigger] s[j]).name@ != name,
    ensures
        pm_find(s, name) is None,
    decreases s.len(),
{
    if s.len() > 0 {
        assert(forall|j: int| 0 <= j < s.drop_first().len()
            ==> (#[trigger] s.drop_first()[j]).name@ != name);
        lemma_pm_find_absent(s.drop_first(), name);
    }
}

proof fn lemma_pm_find_push(s: Seq<PaymentMethod>, pm: PaymentMethod)
    requires
        forall|j: int| 0 <= j < s.len() ==> (#[trigger] s[j]).name@ != pm.name@,
    ensures
        pm_find(s.push(pm), pm.name@) == Some(pm),
        forall|n: Seq<char>| n != pm.name@
            ==> #[trigger] pm_find(s.push(pm), n) == pm_find(s, n),
    decreases s.len(),
{
    let t = s.push(pm);
    if s.len() == 0 {
        assert(t[0] == pm);
        assert(t.drop_first() =~= Seq::<PaymentMethod>::empty());
        assert forall|n: Seq<char>| n != pm.name@
            implies #[trigger] pm_find(t, n) == pm_find(s, n) by {
            assert(pm_find(t, n) == pm_find(t.drop_first(), n));
        }
    } else {
        assert(t[0] == s[0]);
        assert(t.drop_first() =~= s.drop_first().push(pm));
        assert(forall|j: int| 0 <= j < s.drop_first().len()
            ==> (#[trigger] s.drop_first()[j]).name@ != pm.name@);
        lemma_pm_find_push(s.drop_first(), pm);
        assert(s[0].name@ != pm.name@);
        assert(pm_find(t, pm.name@) == pm_find(t.drop_first(), pm.name@));
        assert forall|n: Seq<char>| n != pm.name@
            implies #[trigger] pm_find(t, n) == pm_find(s, n) by {
            if s[0].name@ == n {
                assert(pm_find(t, n) == Some(s[0]));
                assert(pm_find(s, n) == Some(s[0]));
            } else {
                assert(pm_find(t, n) == pm_find(t.drop_first(), n));
                assert(pm_find(s, n) == pm_find(s.drop_first(), n));
            }
        }
    }
}

proof fn lemma_pm_find_update(s: Seq<PaymentMethod>, j: int, pm: PaymentMethod)
    requires
        0 <= j < s.len(),
        pm.name@ == s[j].name@,
        forall|a: int, b: int| 0 <= a < b < s.len()
            ==> (#[trigger] s[a]).name@ != (#[trigger] s[b]).name@,
    ensures
        pm_find(s.update(j, pm), pm.name@) == Some(pm),
        forall|n: Seq<char>| n != pm.name@
            ==> #[trigger] pm_find(s.update(j, pm), n) == pm_find(s, n),
    decreases s.len(),
{
    let t = s.update(j, pm);
    if j == 0 {
        assert(t[0] == pm);
        assert(t.drop_first() =~= s.drop_first());
        assert forall|n: Seq<char>| n != pm.name@
            implies #[trigger] pm_find(t, n) == pm_find(s, n) by {
            assert(pm_find(t, n) == pm_find(t.drop_first(), n));
            assert(pm_find(s, n) == pm_find(s.drop_first(), n));
        }
    } else {
        assert(t[0] == s[0]);
        assert(s[0].name@ != pm.name@);
        assert(s.drop_first()[j - 1] == s[j]);
        assert(t.drop_first() =~= s.drop_first().update(j - 1, pm));
        lemma_pm_find_update(s.drop_first(), j - 1, pm);
        assert(pm_find(t, pm.name@) == pm_find(t.drop_first(), pm.name@));
        assert forall|n: Seq<char>| n != pm.name@
            implies #[trigger] pm_find(t, n) == pm_find(s, n) by {
            if s[0].name@ == n {
                assert(pm_find(t, n) == Some(s[0]));
                assert(pm_find(s, n) == Some(s[0]));
            } else {
                assert(pm_find(t, n) == pm_find(t.drop_first(), n));
                assert(pm_find(s, n) == pm_find(s.drop_first(), n));
            }
        }
    }
}

proof fn lemma_pm_find_remove(s: Seq<PaymentMethod>, j: int)
    requires
        0 <= j < s.len(),
        forall|a: int, b: int| 0 <= a < b < s.len()
            ==> (#[trigger] s[a]).name@ != (#[trigger] s[b]).name@,
    ensures
        pm_find(s.remove(j), s[j].name@) is None,
        forall|n: Seq<char>| n != s[j].name@
            ==> #[trigger] pm_find(s.remove(j), n) == pm_find(s, n),
    decreases s.len(),
{
    let t = s.remove(j);
    if j == 0 {
        assert(t =~= s.drop_first());
        assert(forall|k: int| 0 <= k < t.len() ==> (#[trigger] t[k]).name@ != s[0].name@);
        lemma_pm_find_absent(t, s[0].name@);
        assert forall|n: Seq<char>| n != s[j].name@
            implies #[trigger] pm_find(t, n) == pm_find(s, n) by {
            assert(pm_find(s, n) == pm_find(s.drop_first(), n));
        }
    } else {
        assert(t[0] == s[0]);
        assert(s.drop_first()[j - 1] == s[j]);
        assert(t.drop_first() =~= s.drop_first().remove(j - 1));
        lemma_pm_find_remove(s.drop_first(), j - 1);
        assert(s[0].name@ != s[j].name@);
        assert(pm_find(t, s[j].name@) == pm_find(t.drop_first(), s[j].name@));
        assert forall|n: Seq<char>| n != s[j].name@
            implies #[trigger] pm_find(t, n) == pm_find(s, n) by {
            if s[0].name@ == n {
                assert(pm_find(t, n) == Some(s[0]));
                assert(pm_find(s, n) == Some(s[0]));
            } else {
                assert(pm_find(t, n) == pm_find(t.drop_first(), n));
                assert(pm_find(s, n) == pm_find(s.drop_first(), n));
            }
        }
    }
}

impl Contract {
    /// The registry entry recorded under `name`, if any.
    pub open spec fn spec_payment_method(self, name: Seq<char>) -> Option<PaymentMethod> {
        pm_find(self.payment_methods@, name)
    }

    /// Looks a payment method up by name.
    pub fn get_payment_method(&self, name: &String) -> (r: Option<&PaymentMethod>)
        requires
            self.wf(),
        ensures
            match r {
                Some(pm) => self.spec_payment_method(name@) == Some(*pm),
                None => self.spec_payment_method(name@) is None,
            },
    {
        let n = self.payment_methods.len();
        let mut j: usize = 0;
        while j < n
            invariant
                0 <= j <= n,
                n == self.payment_methods@.len(),
                forall|k: int| 0 <= k < j ==> (#[trigger] self.payment_methods@[k]).name@
                    != name@,
            decreases n - j,
        {
            if self.payment_methods[j].name == *name {
                proof {
                    Self::lemma_pm_at_key(self.payment_methods@, j as int, name@);
                }
                return Some(&self.payment_methods[j]);
            }
            j = j + 1;
        }
        proof {
            lemma_pm_find_absent(self.payment_methods@, name@);
        }
        None
    }

    proof fn lemma_pm_at_key(s: Seq<PaymentMethod>, j: int, name: Seq<char>)
        requires
            0 <= j < s.len(),
            s[j].name@ == name,
            forall|k: int| 0 <= k < j ==> (#[trigger] s[k]).name@ != name,
        ensures
            pm_find(s, name) == Some(s[j]),
        decreases j,
    {
        if j > 0 {
            let t = s.drop_first();
            assert(forall|k: int| 0 <= k < j - 1 ==> (#[trigger] t[k]).name@ != name);
            assert(t[j - 1] == s[j]);
            Self::lemma_pm_at_key(t, j - 1, name);
        }
    }

    /// Adds (or replaces) a registry entry under `name`. Owner only; at
    /// least one currency is required.
    pub fn add_payment_method(&mut self, caller: String, name: String, verifier: String,
        currencies: Vec<String>) -> (r: Result<(), EscrowError>)
        requires
            old(self).wf(),
        ensures
            final(self).wf(),
            r == Err::<(), EscrowError>(EscrowError::NotOwner)
                <==> old(self).owner_id@ != caller@,
            r == Err::<(), EscrowError>(EscrowError::NoCurrencies)
                <==> old(self).owner_id@ == caller@ && currencies@.len() == 0,
            r is Ok <==> old(self).owner_id@ == caller@ && currencies@.len() > 0,
            r is Err ==> *final(self) == *old(self),
            r is Ok ==> {
                let pm = final(self).spec_payment_method(name@)->Some_0;
                &&& final(self).spec_payment_method(name@) is Some
                &&& pm.name == name
                &&& pm.verifier == verifier
                &&& pm.currencies == currencies
                &&& pm.initialized == true
                &&& forall|n: Seq<char>| n != name@
                    ==> #[trigger] final(self).spec_payment_method(n)
                        == old(self).spec_payment_method(n)
                &&& final(self).deposits == old(self).deposits
                &&& final(self).intents == old(self).intents
                &&& final(self).deposit_funding == old(self).deposit_funding
                &&& final(self).open_deposits_by_asset == old(self).open_deposits_by_asset
                &&& final(self).deposit_counter == old(self).deposit_counter
                &&& final(self).intent_counter == old(self).intent_counter
                &&& Self::eq_config(*old(self), *final(self))
            },
    {
        let ghost pre = *old(self);
        if !(caller == self.owner_id) {
            return Err(EscrowError::NotOwner);
        }
        if currencies.len() == 0 {
            return Err(EscrowError::NoCurrencies);
        }
        let stored_name = name.clone();
        let pm = PaymentMethod {
            name: stored_name,
            verifier,
            currencies,
            initialized: true,
        };
        let n = self.payment_methods.len();
        let mut j: usize = 0;
        while j < n
            invariant
                0 <= j <= n,
                pre == *old(self),
                *self == pre,
                pre.wf(),
                caller@ == pre.owner_id@,
                pm.name == name,
                pm.verifier == verifier,
                pm.currencies == currencies,
                pm.initialized == true,
                currencies@.len() > 0,
                n == self.payment_methods@.len(),
                forall|k: int| 0 <= k < j ==> (#[trigger] self.payment_methods@[k]).name@
                    != name@,
            decreases n - j,
        {
            if self.payment_methods[j].name == name {
                let replaced = self.payment_methods.remove(j);
                self.payment_methods.insert(j, pm);
                proof {
                    assert(self.payment_methods@ =~= pre.payment_methods@.update(j as int,
                        self.payment_methods@[j as int]));
                    lemma_pm_find_update(pre.payment_methods@, j as int,
                        self.payment_methods@[j as int]);
                    assert forall|a: int, b: int| 0 <= a < b < self.payment_methods@.len()
                        implies (#[trigger] self.payment_methods@[a]).name@
                            != (#[trigger] self.payment_methods@[b]).name@ by {
                        assert(pre.payment_methods@[a].name@ != pre.payment_methods@[b].name@);
                        if a != j {
                            assert(self.payment_methods@[a] == pre.payment_methods@[a]);
                        }
                        if b != j {
                            assert(self.payment_methods@[b] == pre.payment_methods@[b]);
                        }
                        assert(self.payment_methods@[j as int].name@
                            == pre.payment_methods@[j as int].name@);
                    }
                    self.lemma_wf_same_tables(pre);
                }
                return Ok(());
            }
            j = j + 1;
        }
        self.payment_methods.push(pm);
        proof {
            lemma_pm_find_push(pre.payment_methods@, self.payment_methods@.last());
            assert forall|a: int, b: int| 0 <= a < b < self.payment_methods@.len()
                implies (#[trigger] self.payment_methods@[a]).name@
                    != (#[trigger] self.payment_methods@[b]).name@ by {
                if b < pre.payment_methods@.len() {
                    assert(self.payment_methods@[a] == pre.payment_methods@[a]);
                    assert(self.payment_methods@[b] == pre.payment_methods@[b]);
                } else {
                    assert(self.payment_methods@[a] == pre.payment_methods@[a]);
                }
            }
            self.lemma_wf_same_tables(pre);
        }
        Ok(())
    }

    /// Removes the registry entry under `name`, if one exists. Owner only;
    /// removing an unknown name is a no-op.
    pub fn remove_payment_method(&mut self, caller: String, name: String)
        -> (r: Result<(), EscrowError>)
        requires
            old(self).wf(),
        ensures
            final(self).wf(),
            r == Err::<(), EscrowError>(EscrowError::NotOwner)
                <==> old(self).owner_id@ != caller@,
            r is Ok <==> old(self).owner_id@ == caller@,
            r is Err ==> *final(self) == *old(self),
            r is Ok ==> {
                &&& final(self).spec_payment_method(name@) is None
                &&& forall|n: Seq<char>| n != name@
                    ==> #[trigger] final(self).spec_payment_method(n)
                        == old(self).spec_payment_method(n)
                &&& final(self).deposits == old(self).deposits
                &&& final(self).intents == old(self).intents
                &&& final(self).deposit_funding == old(self).deposit_funding
                &&& final(self).open_deposits_by_asset == old(self).open_deposits_by_asset
                &&& final(self).deposit_counter == old(self).deposit_counter
                &&& final(self).intent_counter == old(self).intent_counter
                &&& Self::eq_config(*old(self), *final(self))
            },
    {
        let ghost pre = *old(self);
        if !(caller == self.owner_id) {
            return Err(EscrowError::NotOwner);
        }
        let n = self.payment_methods.len();
        let mut j: usize = 0;
        while j < n
            invariant
                0 <= j <= n,
                pre == *old(self),
                *self == pre,
                pre.wf(),
                caller@ == pre.owner_id@,
                n == self.payment_methods@.len(),
                forall|k: int| 0 <= k < j ==> (#[trigger] self.payment_methods@[k]).name@
                    != name@,
            decreases n - j,
        {
            if self.payment_methods[j].name == name {
                let removed = self.payment_methods.remove(j);
                proof {
                    lemma_pm_find_remove(pre.payment_methods@, j as int);
                    assert forall|a: int, b: int| 0 <= a < b < self.payment_methods@.len()
                        implies (#[trigger] self.payment_methods@[a]).name@
                            != (#[trigger] self.payment_methods@[b]).name@ by {
                        if a < j {
                            assert(self.payment_methods@[a] == pre.payment_methods@[a]);
                        } else {
                            assert(self.payment_methods@[a] == pre.payment_methods@[a + 1]);
                        }
                        if b < j {
                            assert(self.payment_methods@[b] == pre.payment_methods@[b]);
                        } else {
                            assert(self.payment_methods@[b] == pre.payment_methods@[b + 1]);
                        }
                    }
                    self.lemma_wf_same_tables(pre);
                }
                return Ok(());
            }
            j = j + 1;
        }
        proof {
            lemma_pm_find_absent(self.payment_methods@, name@);
        }
        Ok(())
    }
}

} // verus!
