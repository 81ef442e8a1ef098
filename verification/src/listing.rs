//! The Open Listing Index: an asset-keyed family of deposit-identifier sets,
//! denormalized from the deposit and funding tables. Both the escrow side
//! and the funding workflow re-sync it whenever they mutate a deposit's
//! liquidity or funding status; `Contract::listing_consistent` states the
//! membership rule it maintains.

use vstd::prelude::*;
use crate::records::FundingStatus;
use crate::state::Contract;

verus! {

/// Whether `v` holds `x`.
pub fn vec_u64_contains(v: &Vec<u64>, x: u64) -> (r: bool)
    ensures
        r == v@.contains(x),
{
    let n = v.len();
    let mut i: usize = 0;
    while i < n
        invariant
            0 <= i <= n,
            n == v@.len(),
            forall|k: int| 0 <= k < i ==> v@[k] != x,
        decreases n - i,
    {
        if v[i] == x {
            return true;
        }
        i = i + 1;
    }
    assert(forall|k: int| 0 <= k < v@.len() ==> v@[k] != x);
    false
}

/// The position of `x` in `v`, if present.
pub fn vec_u64_position(v: &Vec<u64>, x: u64) -> (r: Option<usize>)
    ensures
        r matches Some(p) ==> p < v@.len() && v@[p as int] == x,
        r is None ==> !v@.contains(x),
{
    let n = v.len();
    let mut i: usize = 0;
    while i < n
        invariant
            0 <= i <= n,
            n == v@.len(),
            forall|k: int| 0 <= k < i ==> v@[k] != x,
        decreases n - i,
    {
        if v[i] == x {
            return Some(i);
        }
        i = i + 1;
    }
    assert(forall|k: int| 0 <= k < v@.len() ==> v@[k] != x);
    None
}

/// Removing one position from a duplicate-free sequence removes exactly
/// that element's membership.
proof fn lemma_distinct_remove(s: Seq<u64>, p: int)
    requires
        0 <= p < s.len(),
        forall|a: int, b: int| 0 <= a < b < s.len() ==> #[trigger] s[a] != #[trigger] s[b],
    ensures
        forall|x: u64| #[trigger] s.remove(p).contains(x) <==> s.contains(x) && x != s[p],
        forall|a: int, b: int| 0 <= a < b < s.remove(p).len()
            ==> #[trigger] s.remove(p)[a] != #[trigger] s.remove(p)[b],
{
    let t = s.remove(p);
    assert forall|x: u64| #[trigger] t.contains(x) implies s.contains(x) && x != s[p] by {
        let i = choose|i: int| 0 <= i < t.len() && t[i] == x;
        if i < p {
            assert(s[i] == x);
        } else {
            assert(s[i + 1] == x);
        }
    }
    assert forall|x: u64| s.contains(x) && x != s[p] implies #[trigger] t.contains(x) by {
        let i = choose|i: int| 0 <= i < s.len() && s[i] == x;
        if i < p {
            assert(t[i] == x);
        } else {
            assert(i > p);
            assert(t[i - 1] == x);
        }
    }
}

impl Contract {
    /// All tables and configuration other than the open-listing index agree.
    pub open spec fn eq_except_listing(a: Contract, b: Contract) -> bool {
        &&& a.owner_id == b.owner_id
        &&& a.deposit_counter == b.deposit_counter
        &&& a.deposits == b.deposits
        &&& a.intent_counter == b.intent_counter
        &&& a.intents == b.intents
        &&& a.payment_methods == b.payment_methods
        &&& a.protocol_fee == b.protocol_fee
        &&& a.protocol_fee_recipient == b.protocol_fee_recipient
        &&& a.max_intents_per_deposit == b.max_intents_per_deposit
        &&& a.intent_expiration_period == b.intent_expiration_period
        &&& a.deposit_funding == b.deposit_funding
        &&& a.oracle_account_id == b.oracle_account_id
        &&& a.v2_storage_fee_yocto == b.v2_storage_fee_yocto
        &&& a.topup_window_ms == b.topup_window_ms
        &&& a.max_quote_rotations == b.max_quote_rotations
    }

    /// Inserts `deposit_id` into the set listed under `asset`.
    pub(crate) fn add_open_listing(&mut self, asset: &String, deposit_id: u64)
        requires
            old(self).index_wf(),
        ensures
            final(self).index_wf(),
            Self::eq_except_listing(*old(self), *final(self)),
            forall|a: Seq<char>, id: u64| #[trigger] final(self).listed(a, id)
                <==> old(self).listed(a, id) || (a == asset@ && id == deposit_id),
    {
        let n = self.open_deposits_by_asset.len();
        let mut j: usize = 0;
        while j < n
            invariant
                0 <= j <= n,
                *self == *old(self),
                old(self).index_wf(),
                n == self.open_deposits_by_asset@.len(),
                forall|k: int| 0 <= k < j
                    ==> (#[trigger] self.open_deposits_by_asset@[k]).0@ != asset@,
            decreases n - j,
        {
            if self.open_deposits_by_asset[j].0 == *asset {
                let mut entry = self.open_deposits_by_asset.remove(j);
                if vec_u64_contains(&entry.1, deposit_id) {
                    self.open_deposits_by_asset.insert(j, entry);
                    proof {
                        assert(self.open_deposits_by_asset@
                            =~= old(self).open_deposits_by_asset@);
                        assert(old(self).listed(asset@, deposit_id));
                        assert forall|a: Seq<char>, id: u64| #[trigger] self.listed(a, id)
                            implies old(self).listed(a, id) || (a == asset@ && id == deposit_id) by {}
                    }
                } else {
                    entry.1.push(deposit_id);
                    self.open_deposits_by_asset.insert(j, entry);
                    proof {
                        let idx = old(self).open_deposits_by_asset@;
                        let idx2 = self.open_deposits_by_asset@;
                        assert(idx2 =~= idx.update(j as int,
                            (idx[j as int].0, idx2[j as int].1)));
                        assert(idx2[j as int].1@ == idx[j as int].1@.push(deposit_id));
                        assert forall|a: Seq<char>, id: u64| #[trigger] self.listed(a, id)
                            implies old(self).listed(a, id) || (a == asset@ && id == deposit_id) by {
                            let w = choose|w: int| 0 <= w < idx2.len()
                                && (#[trigger] idx2[w]).0@ == a && idx2[w].1@.contains(id);
                            if w != j {
                                assert(idx[w].0@ == a && idx[w].1@.contains(id));
                            } else {
                                let p = choose|p: int| 0 <= p < idx2[w].1@.len()
                                    && idx2[w].1@[p] == id;
                                if p < idx[j as int].1@.len() {
                                    assert(idx[j as int].1@[p] == id);
                                    assert(old(self).listed(a, id));
                                } else {
                                    assert(id == deposit_id && a == asset@);
                                }
                            }
                        }
                        assert forall|a: Seq<char>, id: u64|
                            old(self).listed(a, id) || (a == asset@ && id == deposit_id)
                            implies #[trigger] self.listed(a, id) by {
                            if old(self).listed(a, id) {
                                let w = choose|w: int| 0 <= w < idx.len()
                                    && (#[trigger] idx[w]).0@ == a && idx[w].1@.contains(id);
                                if w != j {
                                    assert(idx2[w].0@ == a && idx2[w].1@.contains(id));
                                } else {
                                    let p = choose|p: int| 0 <= p < idx[w].1@.len()
                                        && idx[w].1@[p] == id;
                                    assert(idx2[j as int].1@[p] == id);
                                    assert(idx2[j as int].1@.contains(id));
                                }
                            } else {
                                assert(idx2[j as int].1@.last() == deposit_id);
                                assert(idx2[j as int].1@.contains(deposit_id));
                            }
                        }
                    }
                }
                return;
            }
            j = j + 1;
        }
        let mut fresh: Vec<u64> = Vec::new();
        fresh.push(deposit_id);
        let key = asset.clone();
        self.open_deposits_by_asset.push((key, fresh));
        proof {
            let idx = old(self).open_deposits_by_asset@;
            let idx2 = self.open_deposits_by_asset@;
            assert(idx2 =~= idx.push((idx2.last().0, idx2.last().1)));
            assert(idx2.last().0@ == asset@);
            assert(idx2.last().1@ =~= seq![deposit_id]);
            assert(idx2.last().1@[0] == deposit_id);
            assert(idx2.last().1@.contains(deposit_id));
            assert(self.listed(asset@, deposit_id));
            assert forall|a: Seq<char>, id: u64| #[trigger] self.listed(a, id)
                implies old(self).listed(a, id) || (a == asset@ && id == deposit_id) by {
                let w = choose|w: int| 0 <= w < idx2.len()
                    && (#[trigger] idx2[w]).0@ == a && idx2[w].1@.contains(id);
                if w < idx.len() {
                    assert(idx[w].0@ == a && idx[w].1@.contains(id));
                } else {
                    assert(idx2[w].1@[0] == deposit_id);
                }
            }
            assert forall|a: Seq<char>, id: u64|
                old(self).listed(a, id) implies #[trigger] self.listed(a, id) by {
                let w = choose|w: int| 0 <= w < idx.len()
                    && (#[trigger] idx[w]).0@ == a && idx[w].1@.contains(id);
                assert(idx2[w].0@ == a && idx2[w].1@.contains(id));
            }
        }
    }

    /// Removes `deposit_id` from the set listed under `asset`, dropping the
    /// set when it becomes empty.
    pub(crate) fn remove_open_listing(&mut self, asset: &String, deposit_id: u64)
        requires
            old(self).index_wf(),
        ensures
            final(self).index_wf(),
            Self::eq_except_listing(*old(self), *final(self)),
            forall|a: Seq<char>, id: u64| #[trigger] final(self).listed(a, id)
                <==> old(self).listed(a, id) && !(a == asset@ && id == deposit_id),
    {
        let n = self.open_deposits_by_asset.len();
        let mut j: usize = 0;
        while j < n
            invariant
                0 <= j <= n,
                *self == *old(self),
                old(self).index_wf(),
                n == self.open_deposits_by_asset@.len(),
                forall|k: int| 0 <= k < j
                    ==> (#[trigger] self.open_deposits_by_asset@[k]).0@ != asset@,
            decreases n - j,
        {
            if self.open_deposits_by_asset[j].0 == *asset {
                let ghost idx = old(self).open_deposits_by_asset@;
                let mut entry = self.open_deposits_by_asset.remove(j);
                match vec_u64_position(&entry.1, deposit_id) {
                    None => {
                        self.open_deposits_by_asset.insert(j, entry);
                        proof {
                            assert(self.open_deposits_by_asset@ =~= idx);
                            assert(!idx[j as int].1@.contains(deposit_id));
                            assert forall|a: Seq<char>, id: u64| #[trigger] self.listed(a, id)
                                implies old(self).listed(a, id)
                                    && !(a == asset@ && id == deposit_id) by {
                                if a == asset@ && id == deposit_id {
                                    let w = choose|w: int| 0 <= w < idx.len()
                                        && (#[trigger] idx[w]).0@ == a
                                        && idx[w].1@.contains(id);
                                    if w < j { } else if w > j {
                                        assert(idx[j as int].0@ == idx[w].0@);
                                    }
                                }
                            }
                        }
                        return;
                    },
                    Some(p) => {
                        proof {
                            lemma_distinct_remove(entry.1@, p as int);
                        }
                        let removed = entry.1.remove(p);
                        if entry.1.len() == 0 {
                            proof {
                                let idx2 = self.open_deposits_by_asset@;
                                assert(idx2 =~= idx.remove(j as int));
                                assert(idx[j as int].1@ =~= seq![removed]);
                                assert forall|a: Seq<char>, id: u64|
                                    #[trigger] self.listed(a, id)
                                    implies old(self).listed(a, id)
                                        && !(a == asset@ && id == deposit_id) by {
                                    let w = choose|w: int| 0 <= w < idx2.len()
                                        && (#[trigger] idx2[w]).0@ == a
                                        && idx2[w].1@.contains(id);
                                    if w < j {
                                        assert(idx[w] == idx2[w]);
                                        assert(idx[w].0@ == a && idx[w].1@.contains(id));
                                        assert(a != asset@);
                                    } else {
                                        assert(idx[w + 1] == idx2[w]);
                                        assert(idx[w + 1].0@ == a && idx[w + 1].1@.contains(id));
                                        if a == asset@ {
                                            assert(idx[j as int].0@ == idx[w + 1].0@);
                                        }
                                    }
                                }
                                assert forall|a: Seq<char>, id: u64|
                                    old(self).listed(a, id) && !(a == asset@ && id == deposit_id)
                                    implies #[trigger] self.listed(a, id) by {
                                    let w = choose|w: int| 0 <= w < idx.len()
                                        && (#[trigger] idx[w]).0@ == a
                                        && idx[w].1@.contains(id);
                                    if w < j {
                                        assert(idx2[w].0@ == a && idx2[w].1@.contains(id));
                                    } else if w == j {
                                        assert(a == asset@);
                                        assert(idx[j as int].1@[0] == removed);
                                        assert(id == deposit_id);
                                    } else {
                                        assert(idx2[w - 1] == idx[w]);
                                        assert(idx2[w - 1].0@ == a
                                            && idx2[w - 1].1@.contains(id));
                                    }
                                }
                            }
                        } else {
                            self.open_deposits_by_asset.insert(j, entry);
                            proof {
                                let idx2 = self.open_deposits_by_asset@;
                                assert(idx2 =~= idx.update(j as int,
                                    (idx[j as int].0, idx2[j as int].1)));
                                assert(idx2[j as int].1@ == idx[j as int].1@.remove(p as int));
                                assert forall|a: Seq<char>, id: u64|
                                    #[trigger] self.listed(a, id)
                                    implies old(self).listed(a, id)
                                        && !(a == asset@ && id == deposit_id) by {
                                    let w = choose|w: int| 0 <= w < idx2.len()
                                        && (#[trigger] idx2[w]).0@ == a
                                        && idx2[w].1@.contains(id);
                                    if w != j {
                                        assert(idx[w].0@ == a && idx[w].1@.contains(id));
                                        if a == asset@ {
                                            if w < j {
                                            } else {
                                                assert(idx[j as int].0@ == idx[w].0@);
                                            }
                                        }
                                    } else {
                                        assert(idx[j as int].1@.contains(id)
                                            && id != deposit_id);
                                    }
                                }
                                assert forall|a: Seq<char>, id: u64|
                                    old(self).listed(a, id) && !(a == asset@ && id == deposit_id)
                                    implies #[trigger] self.listed(a, id) by {
                                    let w = choose|w: int| 0 <= w < idx.len()
                                        && (#[trigger] idx[w]).0@ == a
                                        && idx[w].1@.contains(id);
                                    if w != j {
                                        assert(idx2[w].0@ == a && idx2[w].1@.contains(id));
                                    } else {
                                        assert(a == asset@);
                                        assert(id != deposit_id);
                                        assert(idx2[j as int].1@.contains(id));
                                    }
                                }
                            }
                        }
                        return;
                    },
                }
            }
            j = j + 1;
        }
        proof {
            assert forall|a: Seq<char>, id: u64| #[trigger] self.listed(a, id)
                implies old(self).listed(a, id) && !(a == asset@ && id == deposit_id) by {
                if a == asset@ {
                    let w = choose|w: int| 0 <= w < self.open_deposits_by_asset@.len()
                        && (#[trigger] self.open_deposits_by_asset@[w]).0@ == a
                        && self.open_deposits_by_asset@[w].1@.contains(id);
                }
            }
        }
    }

    /// Re-syncs the open-listing index entry of `deposit_id` after a
    /// liquidity or funding-status change: lists it exactly when its
    /// workflow is `Funded` and it has spare liquidity. A deposit without a
    /// funding workflow is never indexed.
    pub(crate) fn sync_open_listing(&mut self, deposit_id: u64)
        requires
            old(self).index_wf(),
            old(self).has_deposit(deposit_id),
            forall|a: Seq<char>| #[trigger] old(self).listed(a, deposit_id)
                ==> (old(self).spec_funding(deposit_id) matches Some(m) && a == m.asset_id@),
        ensures
            final(self).index_wf(),
            Self::eq_except_listing(*old(self), *final(self)),
            forall|a: Seq<char>, id: u64| id != deposit_id
                ==> (#[trigger] final(self).listed(a, id) <==> old(self).listed(a, id)),
            old(self).spec_funding(deposit_id) is None
                ==> forall|a: Seq<char>| #[trigger] final(self).listed(a, deposit_id)
                    <==> old(self).listed(a, deposit_id),
            old(self).spec_funding(deposit_id) matches Some(m)
                ==> forall|a: Seq<char>| #[trigger] final(self).listed(a, deposit_id)
                    <==> (old(self).should_list(deposit_id) && a == m.asset_id@),
    {
        let funding_idx = self.find_funding_index(deposit_id);
        match funding_idx {
            None => {
                proof {
                    assert(self.spec_funding(deposit_id) is None);
                }
            },
            Some(fj) => {
                let ghost m = old(self).spec_funding(deposit_id)->Some_0;
                let asset = self.deposit_funding[fj].1.asset_id.clone();
                let funded = match self.deposit_funding[fj].1.status {
                    FundingStatus::Funded => true,
                    _ => false,
                };
                let nd = self.deposits.len();
                proof {
                    assert(1 <= deposit_id && deposit_id as int <= nd as int);
                }
                let di = (deposit_id - 1) as usize;
                proof {
                    assert(di as int == deposit_id - 1);
                }
                let remaining = self.deposits[di].remaining_deposits;
                proof {
                    assert(asset@ == m.asset_id@);
                    assert(funded == (m.status == FundingStatus::Funded));
                    assert(remaining == old(self).spec_deposit(deposit_id).remaining_deposits);
                }
                if funded && remaining > 0 {
                    self.add_open_listing(&asset, deposit_id);
                    proof {
                        assert(old(self).should_list(deposit_id));
                        assert forall|a: Seq<char>| #[trigger] self.listed(a, deposit_id)
                            <==> (old(self).should_list(deposit_id) && a == m.asset_id@) by {
                            if self.listed(a, deposit_id) {
                                assert(old(self).listed(a, deposit_id) || a == asset@);
                            }
                            if a == m.asset_id@ {
                                assert(self.listed(a, deposit_id));
                            }
                        }
                    }
                } else {
                    self.remove_open_listing(&asset, deposit_id);
                    proof {
                        assert(!old(self).should_list(deposit_id));
                        assert forall|a: Seq<char>| !(#[trigger] self.listed(a, deposit_id)) by {
                            if self.listed(a, deposit_id) {
                                assert(old(self).listed(a, deposit_id) && a != asset@);
                            }
                        }
                    }
                }
            },
        }
    }
}

} // verus!
