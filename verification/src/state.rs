//! The ledger state: one `Contract` value owns every record table. Each
//! public operation is a single atomic step on a `&mut Contract`; its
//! contract relates the state after the call to the state before it.
//!
//! `Contract::wf` is the global well-formedness invariant: identifier
//! assignment, liquidity conservation (`remaining + outstanding <= total`,
//! with `outstanding` exactly the sum of the open intents), the funding
//! gate (no intents against an unfunded workflow), and the consistency of
//! the open-listing index.

use vstd::prelude::*;
use crate::records::{Deposit, Intent, IntentStatus, FundingStatus, DepositFundingMeta,
    PaymentMethod};
use crate::text::dec_digits;

verus! {

/// Default collateral charged for registering a funding-path deposit.
pub const DEFAULT_V2_STORAGE_FEE_YOCTO: u128 = 50_000_000_000_000_000_000_000;

/// Default length of the top-up window, in milliseconds.
pub const DEFAULT_TOPUP_WINDOW_MS: u64 = 10_800_000;

/// Default bound on quote rotations per funding workflow.
pub const DEFAULT_MAX_QUOTE_ROTATIONS: u16 = 48;

/// The escrow ledger: deposits, intents, the payment-method registry, the
/// funding workflows, the open-listing index, and the configuration.
pub struct Contract {
    pub owner_id: String,
    pub deposit_counter: u64,
    pub deposits: Vec<Deposit>,
    pub intent_counter: u64,
    pub intents: Vec<Intent>,
    pub payment_methods: Vec<PaymentMethod>,
    pub protocol_fee: u128,
    pub protocol_fee_recipient: String,
    pub max_intents_per_deposit: u8,
    pub intent_expiration_period: u64,
    pub deposit_funding: Vec<(u64, DepositFundingMeta)>,
    pub open_deposits_by_asset: Vec<(String, Vec<u64>)>,
    pub oracle_account_id: String,
    pub v2_storage_fee_yocto: u128,
    pub topup_window_ms: u64,
    pub max_quote_rotations: u16,
}

/// The hash under which the intent with counter value `n` is recorded.
pub open spec fn intent_hash_seq(n: nat) -> Seq<char> {
    "intent:"@ + dec_digits(n)
}

/// Intent hashes are distinct for distinct counter values.
pub proof fn lemma_intent_hash_injective(a: nat, b: nat)
    requires
        intent_hash_seq(a) == intent_hash_seq(b),
    ensures
        a == b,
{
    let p = "intent:"@;
    assert(dec_digits(a) =~= intent_hash_seq(a).subrange(p.len() as int,
        intent_hash_seq(a).len() as int));
    assert(dec_digits(b) =~= intent_hash_seq(b).subrange(p.len() as int,
        intent_hash_seq(b).len() as int));
    crate::text::lemma_dec_digits_injective(a, b);
}

/// What the intent at position `i` contributes to its deposit's
/// outstanding total: its amount while it is `Signaled`, nothing after.
pub open spec fn signaled_contrib(it: Intent, deposit_id: u64) -> int {
    if it.deposit_id == deposit_id && it.status == IntentStatus::Signaled {
        it.amount as int
    } else {
        0
    }
}

/// The sum of the amounts of all `Signaled` intents against `deposit_id`.
pub open spec fn sum_signaled(s: Seq<Intent>, deposit_id: u64) -> int
    decreases s.len(),
{
    if s.len() == 0 {
        0
    } else {
        sum_signaled(s.drop_last(), deposit_id) + signaled_contrib(s.last(), deposit_id)
    }
}

pub proof fn lemma_sum_signaled_nonneg(s: Seq<Intent>, deposit_id: u64)
    ensures
        sum_signaled(s, deposit_id) >= 0,
    decreases s.len(),
{
    if s.len() > 0 {
        lemma_sum_signaled_nonneg(s.drop_last(), deposit_id);
    }
}

pub proof fn lemma_sum_signaled_push(s: Seq<Intent>, x: Intent, deposit_id: u64)
    ensures
        sum_signaled(s.push(x), deposit_id) == sum_signaled(s, deposit_id)
            + signaled_contrib(x, deposit_id),
{
    assert(s.push(x).drop_last() =~= s);
}

pub proof fn lemma_sum_signaled_update(s: Seq<Intent>, i: int, x: Intent, deposit_id: u64)
    requires
        0 <= i < s.len(),
    ensures
        sum_signaled(s.update(i, x), deposit_id) == sum_signaled(s, deposit_id)
            - signaled_contrib(s[i], deposit_id) + signaled_contrib(x, deposit_id),
    decreases s.len(),
{
    let t = s.update(i, x);
    if i == s.len() - 1 {
        assert(t.drop_last() =~= s.drop_last());
        assert(t.last() == x);
    } else {
        assert(t.drop_last() =~= s.drop_last().update(i, x));
        assert(t.last() == s.last());
        lemma_sum_signaled_update(s.drop_last(), i, x, deposit_id);
    }
}

/// One `Signaled` intent against a deposit never exceeds the sum of all of
/// them.
pub proof fn lemma_sum_signaled_element(s: Seq<Intent>, i: int, deposit_id: u64)
    requires
        0 <= i < s.len(),
        s[i].deposit_id == deposit_id,
        s[i].status == IntentStatus::Signaled,
    ensures
        sum_signaled(s, deposit_id) >= s[i].amount,
    decreases s.len(),
{
    if i == s.len() - 1 {
        lemma_sum_signaled_nonneg(s.drop_last(), deposit_id);
    } else {
        lemma_sum_signaled_element(s.drop_last(), i, deposit_id);
    }
}

/// With no `Signaled` intent against a deposit, the sum is zero.
pub proof fn lemma_sum_signaled_zero(s: Seq<Intent>, deposit_id: u64)
    requires
        forall|i: int| 0 <= i < s.len() ==> signaled_contrib(#[trigger] s[i], deposit_id) == 0,
    ensures
        sum_signaled(s, deposit_id) == 0,
    decreases s.len(),
{
    if s.len() > 0 {
        lemma_sum_signaled_zero(s.drop_last(), deposit_id);
    }
}

/// How many intents have ever been signaled against `deposit_id`
/// (terminal intents included).
pub open spec fn count_intents_on(s: Seq<Intent>, deposit_id: u64) -> int
    decreases s.len(),
{
    if s.len() == 0 {
        0
    } else {
        count_intents_on(s.drop_last(), deposit_id)
            + if s.last().deposit_id == deposit_id { 1int } else { 0int }
    }
}

pub proof fn lemma_count_intents_push(s: Seq<Intent>, x: Intent, deposit_id: u64)
    ensures
        count_intents_on(s.push(x), deposit_id) == count_intents_on(s, deposit_id)
            + if x.deposit_id == deposit_id { 1int } else { 0int },
{
    assert(s.push(x).drop_last() =~= s);
}

/// Some element of `ms` views as `x`.
pub open spec fn contains_string(ms: Seq<String>, x: Seq<char>) -> bool {
    exists|i: int| 0 <= i < ms.len() && (#[trigger] ms[i])@ == x
}

/// Whether some element of `v` equals `x`.
pub fn vec_string_contains(v: &Vec<String>, x: &String) -> (r: bool)
    ensures
        r == contains_string(v@, x@),
{
    let n = v.len();
    let mut i: usize = 0;
    while i < n
        invariant
            0 <= i <= n,
            n == v@.len(),
            forall|k: int| 0 <= k < i ==> (#[trigger] v@[k])@ != x@,
        decreases n - i,
    {
        if v[i] == *x {
            return true;
        }
        i = i + 1;
    }
    false
}

/// The first value stored under key `k`, scanning from the front.
pub open spec fn alist_find(s: Seq<(u64, DepositFundingMeta)>, k: u64) -> Option<DepositFundingMeta>
    decreases s.len(),
{
    if s.len() == 0 {
        None
    } else if s[0].0 == k {
        Some(s[0].1)
    } else {
        alist_find(s.drop_first(), k)
    }
}

impl Contract {
    /// The deposit identifier `id` is allocated.
    pub open spec fn has_deposit(self, id: u64) -> bool {
        1 <= id && id <= self.deposits@.len()
    }

    /// The deposit stored under identifier `id`.
    pub open spec fn spec_deposit(self, id: u64) -> Deposit {
        self.deposits@[id - 1]
    }

    /// The funding metadata attached to deposit `id`, if any.
    pub open spec fn spec_funding(self, id: u64) -> Option<DepositFundingMeta> {
        alist_find(self.deposit_funding@, id)
    }

    /// Some intent is recorded under hash `h`.
    pub open spec fn has_intent(self, h: Seq<char>) -> bool {
        exists|i: int| 0 <= i < self.intents@.len() && (#[trigger] self.intents@[i]).intent_hash@ == h
    }

    /// The position of the intent recorded under hash `h`.
    pub open spec fn intent_index(self, h: Seq<char>) -> int {
        choose|i: int| 0 <= i < self.intents@.len() && (#[trigger] self.intents@[i]).intent_hash@ == h
    }

    /// The intent recorded under hash `h`.
    pub open spec fn spec_intent(self, h: Seq<char>) -> Intent {
        self.intents@[self.intent_index(h)]
    }

    /// Deposit `id` is listed in the open-listing index under `asset`.
    pub open spec fn listed(self, asset: Seq<char>, id: u64) -> bool {
        exists|j: int| 0 <= j < self.open_deposits_by_asset@.len()
            && (#[trigger] self.open_deposits_by_asset@[j]).0@ == asset
            && self.open_deposits_by_asset@[j].1@.contains(id)
    }

    /// Deposit `id` belongs in the open-listing index: its funding is
    /// confirmed and it has spare liquidity.
    pub open spec fn should_list(self, id: u64) -> bool {
        &&& self.has_deposit(id)
        &&& self.spec_funding(id) matches Some(m) && m.status == FundingStatus::Funded
        &&& self.spec_deposit(id).remaining_deposits > 0
    }

    /// The asset under which deposit `id` would be listed.
    pub open spec fn funding_asset(self, id: u64) -> Seq<char> {
        self.spec_funding(id)->Some_0.asset_id@
    }

    /// The open-listing index lists exactly the funded deposits with spare
    /// liquidity, each under its funding asset.
    pub open spec fn listing_consistent(self) -> bool {
        forall|asset: Seq<char>, id: u64| #[trigger] self.listed(asset, id)
            <==> self.should_list(id) && asset == self.funding_asset(id)
    }

    /// Structural well-formedness of the open-listing index: asset keys are
    /// distinct, identifier sets hold no duplicates and are never empty.
    pub open spec fn index_wf(self) -> bool {
        let idx = self.open_deposits_by_asset@;
        &&& forall|j: int, k: int| 0 <= j < k < idx.len()
            ==> (#[trigger] idx[j]).0@ != (#[trigger] idx[k]).0@
        &&& forall|j: int| 0 <= j < idx.len() ==> (#[trigger] idx[j]).1@.len() > 0
        &&& forall|j: int, a: int, b: int| 0 <= j < idx.len()
            && 0 <= a < b < idx[j].1@.len()
            ==> #[trigger] idx[j].1@[a] != #[trigger] idx[j].1@[b]
    }

    /// A deposit's local invariant: conservation bound and sane intent
    /// bounds.
    pub open spec fn deposit_ok(d: Deposit) -> bool {
        &&& d.remaining_deposits + d.outstanding_intents <= d.total_deposit
        &&& 0 < d.min_intent_amount <= d.max_intent_amount
    }

    /// Global well-formedness of the ledger.
    pub open spec fn wf(self) -> bool {
        &&& self.wf_core()
        &&& self.listing_consistent()
    }

    /// Every well-formedness clause but the open-listing consistency:
    /// identifier assignment, per-deposit bounds, intent hashing, the
    /// funding gate, liquidity conservation, key distinctness, and the
    /// index's structure.
    pub open spec fn wf_core(self) -> bool {
        &&& self.deposit_counter == self.deposits@.len()
        &&& forall|i: int| 0 <= i < self.deposits@.len()
            ==> (#[trigger] self.deposits@[i]).deposit_id == i + 1
        &&& forall|i: int| 0 <= i < self.deposits@.len()
            ==> Self::deposit_ok(#[trigger] self.deposits@[i])
        &&& self.intent_counter == self.intents@.len()
        &&& forall|i: int| 0 <= i < self.intents@.len()
            ==> (#[trigger] self.intents@[i]).intent_hash@ == intent_hash_seq((i + 1) as nat)
        &&& forall|i: int| 0 <= i < self.intents@.len()
            ==> self.has_deposit((#[trigger] self.intents@[i]).deposit_id)
        &&& forall|i: int| 0 <= i < self.intents@.len()
            ==> (#[trigger] self.intents@[i]).amount > 0
        &&& forall|i: int| 0 <= i < self.intents@.len()
            ==> match self.spec_funding((#[trigger] self.intents@[i]).deposit_id) {
                Some(m) => m.status == FundingStatus::Funded,
                None => true,
            }
        &&& forall|id: u64| self.has_deposit(id)
            ==> (#[trigger] self.spec_deposit(id)).outstanding_intents
                == sum_signaled(self.intents@, id)
        &&& forall|j: int, k: int| 0 <= j < k < self.deposit_funding@.len()
            ==> (#[trigger] self.deposit_funding@[j]).0 != (#[trigger] self.deposit_funding@[k]).0
        &&& forall|j: int| 0 <= j < self.deposit_funding@.len()
            ==> self.has_deposit((#[trigger] self.deposit_funding@[j]).0)
        &&& forall|j: int, k: int| 0 <= j < k < self.payment_methods@.len()
            ==> (#[trigger] self.payment_methods@[j]).name@
                != (#[trigger] self.payment_methods@[k]).name@
        &&& self.index_wf()
    }

    /// A state with the same tables as a well-formed one is well-formed:
    /// configuration changes alone cannot break the invariant.
    pub proof fn lemma_wf_same_tables(self, pre: Contract)
        requires
            pre.wf(),
            self.deposits == pre.deposits,
            self.intents == pre.intents,
            self.deposit_funding == pre.deposit_funding,
            self.open_deposits_by_asset == pre.open_deposits_by_asset,
            forall|j: int, k: int| 0 <= j < k < self.payment_methods@.len()
                ==> (#[trigger] self.payment_methods@[j]).name@
                    != (#[trigger] self.payment_methods@[k]).name@,
            self.deposit_counter == pre.deposit_counter,
            self.intent_counter == pre.intent_counter,
        ensures
            self.wf(),
    {
        assert(self.deposits@ == pre.deposits@);
        assert(self.intents@ == pre.intents@);
        assert(self.deposit_funding@ == pre.deposit_funding@);
        assert(self.open_deposits_by_asset@ == pre.open_deposits_by_asset@);
        assert forall|id: u64| #[trigger] self.spec_funding(id) == pre.spec_funding(id) by { }
        assert forall|id: u64| self.has_deposit(id)
            implies (#[trigger] self.spec_deposit(id)).outstanding_intents
                == sum_signaled(self.intents@, id) by {
            assert(self.spec_deposit(id) == pre.spec_deposit(id));
        }
        assert(self.wf_core());
        lemma_listed_same_index(pre, self);
        assert forall|asset: Seq<char>, id: u64| #[trigger] self.listed(asset, id)
            <==> self.should_list(id) && asset == self.funding_asset(id) by {
            assert(self.listed(asset, id) == pre.listed(asset, id));
            if self.has_deposit(id) {
                assert(self.spec_deposit(id) == pre.spec_deposit(id));
            }
            assert(self.should_list(id) == pre.should_list(id));
        }
    }

    /// Re-establishes full well-formedness after an operation that touched
    /// one deposit's record (and possibly its intents) and then re-synced
    /// the open-listing index for it: the other listings and deposits are
    /// untouched, so consistency carries over pointwise.
    pub proof fn lemma_wf_from_sync(self, pre: Contract, deposit_id: u64)
        requires
            pre.wf(),
            self.wf_core(),
            pre.has_deposit(deposit_id),
            self.deposits@.len() == pre.deposits@.len(),
            forall|id: u64| id != deposit_id && self.has_deposit(id)
                ==> #[trigger] self.spec_deposit(id) == pre.spec_deposit(id),
            self.deposit_funding == pre.deposit_funding,
            forall|a: Seq<char>, id: u64| id != deposit_id
                ==> (#[trigger] self.listed(a, id) <==> pre.listed(a, id)),
            self.spec_funding(deposit_id) is None
                ==> forall|a: Seq<char>| #[trigger] self.listed(a, deposit_id)
                    <==> pre.listed(a, deposit_id),
            self.spec_funding(deposit_id) matches Some(m)
                ==> forall|a: Seq<char>| #[trigger] self.listed(a, deposit_id)
                    <==> (self.should_list(deposit_id) && a == m.asset_id@),
        ensures
            self.wf(),
    {
        assert(forall|id: u64| #[trigger] self.spec_funding(id) == pre.spec_funding(id));
        assert forall|asset: Seq<char>, id: u64| #[trigger] self.listed(asset, id)
            <==> self.should_list(id) && asset == self.funding_asset(id) by {
            if id != deposit_id {
                assert(self.listed(asset, id) == pre.listed(asset, id));
                assert(self.should_list(id) == pre.should_list(id));
            } else {
                match self.spec_funding(deposit_id) {
                    Some(m) => { },
                    None => {
                        assert(self.listed(asset, id) == pre.listed(asset, id));
                        assert(!pre.should_list(id));
                        assert(!self.should_list(id));
                    },
                }
            }
        }
    }

    /// Ownership and configuration agree between two states.
    pub open spec fn eq_config(a: Contract, b: Contract) -> bool {
        &&& a.owner_id == b.owner_id
        &&& a.protocol_fee == b.protocol_fee
        &&& a.protocol_fee_recipient == b.protocol_fee_recipient
        &&& a.max_intents_per_deposit == b.max_intents_per_deposit
        &&& a.intent_expiration_period == b.intent_expiration_period
        &&& a.oracle_account_id == b.oracle_account_id
        &&& a.v2_storage_fee_yocto == b.v2_storage_fee_yocto
        &&& a.topup_window_ms == b.topup_window_ms
        &&& a.max_quote_rotations == b.max_quote_rotations
    }

    /// Distinct positions hold intents with distinct hashes.
    pub proof fn lemma_intent_hashes_distinct(self, i: int, j: int)
        requires
            self.wf(),
            0 <= i < self.intents@.len(),
            0 <= j < self.intents@.len(),
            self.intents@[i].intent_hash@ == self.intents@[j].intent_hash@,
        ensures
            i == j,
    {
        lemma_intent_hash_injective((i + 1) as nat, (j + 1) as nat);
    }

    /// `intent_index` is the one position holding hash `h`.
    pub proof fn lemma_intent_index(self, h: Seq<char>, i: int)
        requires
            self.wf(),
            0 <= i < self.intents@.len(),
            self.intents@[i].intent_hash@ == h,
        ensures
            self.has_intent(h),
            self.intent_index(h) == i,
    {
        assert(self.has_intent(h));
        self.lemma_intent_hashes_distinct(self.intent_index(h), i);
    }

    /// A fresh ledger owned by `owner_id`.
    pub fn new(owner_id: String, protocol_fee_recipient: String) -> (c: Contract)
        ensures
            c.wf(),
            c.owner_id@ == owner_id@,
            c.deposits@.len() == 0,
            c.intents@.len() == 0,
            c.payment_methods@.len() == 0,
            c.deposit_funding@.len() == 0,
            c.open_deposits_by_asset@.len() == 0,
            c.protocol_fee == 100,
            c.protocol_fee_recipient@ == protocol_fee_recipient@,
            c.max_intents_per_deposit == 100,
            c.intent_expiration_period == 86_400_000_000_000,
            c.oracle_account_id@ == owner_id@,
            c.v2_storage_fee_yocto == DEFAULT_V2_STORAGE_FEE_YOCTO,
            c.topup_window_ms == DEFAULT_TOPUP_WINDOW_MS,
            c.max_quote_rotations == DEFAULT_MAX_QUOTE_ROTATIONS,
    {
        let oracle_account_id = owner_id.clone();
        let c = Contract {
            owner_id,
            deposit_counter: 0,
            deposits: Vec::new(),
            intent_counter: 0,
            intents: Vec::new(),
            payment_methods: Vec::new(),
            protocol_fee: 100,
            protocol_fee_recipient,
            max_intents_per_deposit: 100,
            intent_expiration_period: 86_400_000_000_000,
            deposit_funding: Vec::new(),
            open_deposits_by_asset: Vec::new(),
            oracle_account_id,
            v2_storage_fee_yocto: DEFAULT_V2_STORAGE_FEE_YOCTO,
            topup_window_ms: DEFAULT_TOPUP_WINDOW_MS,
            max_quote_rotations: DEFAULT_MAX_QUOTE_ROTATIONS,
        };
        proof {
            assert(forall|asset: Seq<char>, id: u64| !(#[trigger] c.listed(asset, id)));
            assert(forall|id: u64| c.has_deposit(id) ==> !(#[trigger] c.should_list(id)));
        }
        c
    }

    /// The caller manages the deposit: it is the depositor or the delegate.
    pub open spec fn spec_is_manager(caller: Seq<char>, d: Deposit) -> bool {
        d.depositor@ == caller || (d.delegate matches Some(g) && g@ == caller)
    }

    /// Whether `caller` is the depositor or the set delegate of `d`.
    pub fn is_deposit_manager(caller: &String, d: &Deposit) -> (r: bool)
        ensures
            r == Self::spec_is_manager(caller@, *d),
    {
        if *caller == d.depositor {
            true
        } else {
            match &d.delegate {
                Some(g) => *g == *caller,
                None => false,
            }
        }
    }

    /// Looks up a deposit by identifier.
    pub fn get_deposit(&self, deposit_id: u64) -> (r: Option<&Deposit>)
        requires
            self.wf(),
        ensures
            r matches Some(d) <==> self.has_deposit(deposit_id),
            r matches Some(d) ==> *d == self.spec_deposit(deposit_id),
            r is None <==> !self.has_deposit(deposit_id),
    {
        if deposit_id >= 1 && deposit_id <= self.deposits.len() as u64 {
            Some(&self.deposits[(deposit_id - 1) as usize])
        } else {
            None
        }
    }

    /// Finds the position of the funding record for `deposit_id`.
    pub fn find_funding_index(&self, deposit_id: u64) -> (r: Option<usize>)
        ensures
            r matches Some(j) ==> j < self.deposit_funding@.len()
                && self.deposit_funding@[j as int].0 == deposit_id
                && self.spec_funding(deposit_id) == Some(self.deposit_funding@[j as int].1),
            r is None ==> self.spec_funding(deposit_id) is None,
    {
        let n = self.deposit_funding.len();
        proof {
            assert(self.deposit_funding@.subrange(0, n as int) =~= self.deposit_funding@);
        }
        let mut j: usize = 0;
        while j < n
            invariant
                0 <= j <= n,
                n == self.deposit_funding@.len(),
                forall|k: int| 0 <= k < j ==> (#[trigger] self.deposit_funding@[k]).0 != deposit_id,
                alist_find(self.deposit_funding@, deposit_id)
                    == alist_find(self.deposit_funding@.subrange(j as int, n as int), deposit_id),
            decreases n - j,
        {
            proof {
                lemma_alist_find_skip(self.deposit_funding@, j as int, deposit_id);
            }
            if self.deposit_funding[j].0 == deposit_id {
                proof {
                    let rest = self.deposit_funding@.subrange(j as int, n as int);
                    assert(rest[0] == self.deposit_funding@[j as int]);
                }
                return Some(j);
            }
            proof {
                let rest = self.deposit_funding@.subrange(j as int, n as int);
                assert(rest[0] == self.deposit_funding@[j as int]);
                assert(rest.drop_first() =~= self.deposit_funding@.subrange(j as int + 1, n as int));
            }
            j = j + 1;
        }
        proof {
            assert(self.deposit_funding@.subrange(n as int, n as int) =~= Seq::<(u64,
                DepositFundingMeta)>::empty());
        }
        None
    }

    /// Counts the intents ever signaled against `deposit_id` (terminal ones
    /// included), the figure held against the per-deposit intent cap.
    pub fn count_deposit_intents(&self, deposit_id: u64) -> (r: usize)
        ensures
            r == count_intents_on(self.intents@, deposit_id),
    {
        let n = self.intents.len();
        let mut count: usize = 0;
        let mut i: usize = 0;
        proof {
            assert(self.intents@.subrange(0, 0) =~= Seq::<Intent>::empty());
        }
        while i < n
            invariant
                0 <= i <= n,
                n == self.intents@.len(),
                count <= i,
                count == count_intents_on(self.intents@.subrange(0, i as int), deposit_id),
            decreases n - i,
        {
            proof {
                assert(self.intents@.subrange(0, i + 1)
                    =~= self.intents@.subrange(0, i as int).push(self.intents@[i as int]));
                lemma_count_intents_push(self.intents@.subrange(0, i as int),
                    self.intents@[i as int], deposit_id);
            }
            if self.intents[i].deposit_id == deposit_id {
                count = count + 1;
            }
            i = i + 1;
        }
        proof {
            assert(self.intents@.subrange(0, n as int) =~= self.intents@);
        }
        count
    }

    /// Finds the position of the intent recorded under `hash`.
    pub fn find_intent_index(&self, hash: &String) -> (r: Option<usize>)
        requires
            self.wf(),
        ensures
            r matches Some(i) ==> self.has_intent(hash@) && i == self.intent_index(hash@)
                && i < self.intents@.len() && self.intents@[i as int].intent_hash@ == hash@,
            r is None ==> !self.has_intent(hash@),
    {
        let n = self.intents.len();
        let mut i: usize = 0;
        while i < n
            invariant
                0 <= i <= n,
                n == self.intents@.len(),
                self.wf(),
                forall|k: int| 0 <= k < i ==> (#[trigger] self.intents@[k]).intent_hash@ != hash@,
            decreases n - i,
        {
            if self.intents[i].intent_hash == *hash {
                proof {
                    self.lemma_intent_index(hash@, i as int);
                }
                return Some(i);
            }
            i = i + 1;
        }
        None
    }
}

/// Two states with the same open-listing index list the same pairs.
pub proof fn lemma_listed_same_index(a: Contract, b: Contract)
    requires
        a.open_deposits_by_asset == b.open_deposits_by_asset,
    ensures
        forall|s: Seq<char>, id: u64| #[trigger] a.listed(s, id) <==> #[trigger] b.listed(s, id),
{
    assert forall|s: Seq<char>, id: u64| #[trigger] a.listed(s, id)
        implies #[trigger] b.listed(s, id) by {
        let w = choose|w: int| 0 <= w < a.open_deposits_by_asset@.len()
            && (#[trigger] a.open_deposits_by_asset@[w]).0@ == s
            && a.open_deposits_by_asset@[w].1@.contains(id);
        assert(b.open_deposits_by_asset@[w].0@ == s
            && b.open_deposits_by_asset@[w].1@.contains(id));
    }
    assert forall|s: Seq<char>, id: u64| #[trigger] b.listed(s, id)
        implies #[trigger] a.listed(s, id) by {
        let w = choose|w: int| 0 <= w < b.open_deposits_by_asset@.len()
            && (#[trigger] b.open_deposits_by_asset@[w]).0@ == s
            && b.open_deposits_by_asset@[w].1@.contains(id);
        assert(a.open_deposits_by_asset@[w].0@ == s
            && a.open_deposits_by_asset@[w].1@.contains(id));
    }
}

/// A key under which nothing is stored is not found.
pub proof fn lemma_alist_find_absent(s: Seq<(u64, DepositFundingMeta)>, k: u64)
    requires
        forall|j: int| 0 <= j < s.len() ==> (#[trigger] s[j]).0 != k,
    ensures
        alist_find(s, k) is None,
    decreases s.len(),
{
    if s.len() > 0 {
        assert(forall|j: int| 0 <= j < s.drop_first().len()
            ==> (#[trigger] s.drop_first()[j]).0 != k);
        lemma_alist_find_absent(s.drop_first(), k);
    }
}

/// Updating the record stored at one position changes the lookup of its key
/// alone, provided keys are distinct.
pub proof fn lemma_alist_find_update(s: Seq<(u64, DepositFundingMeta)>, j: int,
    v: DepositFundingMeta)
    requires
        0 <= j < s.len(),
        forall|a: int, b: int| 0 <= a < b < s.len()
            ==> (#[trigger] s[a]).0 != (#[trigger] s[b]).0,
    ensures
        alist_find(s.update(j, (s[j].0, v)), s[j].0) == Some(v),
        forall|k: u64| k != s[j].0
            ==> #[trigger] alist_find(s.update(j, (s[j].0, v)), k) == alist_find(s, k),
    decreases s.len(),
{
    let t = s.update(j, (s[j].0, v));
    if j == 0 {
        assert(t[0].0 == s[j].0);
        assert(t.drop_first() =~= s.drop_first());
        assert forall|k: u64| k != s[j].0 implies #[trigger] alist_find(t, k)
            == alist_find(s, k) by {
            assert(alist_find(t, k) == alist_find(t.drop_first(), k));
            assert(alist_find(s, k) == alist_find(s.drop_first(), k));
        }
    } else {
        assert(t[0] == s[0]);
        assert(s[0].0 != s[j].0);
        assert(s.drop_first()[j - 1] == s[j]);
        assert(t.drop_first() =~= s.drop_first().update(j - 1,
            (s.drop_first()[j - 1].0, v)));
        lemma_alist_find_update(s.drop_first(), j - 1, v);
        assert(alist_find(t, s[j].0) == alist_find(t.drop_first(), s[j].0));
        assert forall|k: u64| k != s[j].0 implies #[trigger] alist_find(t, k)
            == alist_find(s, k) by {
            if s[0].0 == k {
                assert(alist_find(t, k) == Some(s[0].1));
                assert(alist_find(s, k) == Some(s[0].1));
            } else {
                assert(alist_find(t, k) == alist_find(t.drop_first(), k));
                assert(alist_find(s, k) == alist_find(s.drop_first(), k));
            }
        }
    }
}

/// Appending a record with a fresh key adds that key's lookup and changes
/// no other.
pub proof fn lemma_alist_find_push(s: Seq<(u64, DepositFundingMeta)>, k: u64,
    v: DepositFundingMeta)
    requires
        forall|j: int| 0 <= j < s.len() ==> (#[trigger] s[j]).0 != k,
    ensures
        alist_find(s.push((k, v)), k) == Some(v),
        forall|k2: u64| k2 != k
            ==> #[trigger] alist_find(s.push((k, v)), k2) == alist_find(s, k2),
    decreases s.len(),
{
    let t = s.push((k, v));
    if s.len() == 0 {
        assert(t[0] == (k, v));
        assert(t.drop_first() =~= Seq::<(u64, DepositFundingMeta)>::empty());
        assert forall|k2: u64| k2 != k implies #[trigger] alist_find(t, k2)
            == alist_find(s, k2) by {
            assert(alist_find(t, k2) == alist_find(t.drop_first(), k2));
        }
    } else {
        assert(t[0] == s[0]);
        assert(t.drop_first() =~= s.drop_first().push((k, v)));
        assert(forall|j: int| 0 <= j < s.drop_first().len()
            ==> (#[trigger] s.drop_first()[j]).0 != k);
        lemma_alist_find_push(s.drop_first(), k, v);
        assert(s[0].0 != k);
        assert(alist_find(t, k) == alist_find(t.drop_first(), k));
        assert forall|k2: u64| k2 != k implies #[trigger] alist_find(t, k2)
            == alist_find(s, k2) by {
            if s[0].0 == k2 {
                assert(alist_find(t, k2) == Some(s[0].1));
                assert(alist_find(s, k2) == Some(s[0].1));
            } else {
                assert(alist_find(t, k2) == alist_find(t.drop_first(), k2));
                assert(alist_find(s, k2) == alist_find(s.drop_first(), k2));
            }
        }
    }
}

proof fn lemma_alist_find_skip(s: Seq<(u64, DepositFundingMeta)>, j: int, k: u64)
    requires
        0 <= j < s.len(),
    ensures
        s[j].0 == k ==> alist_find(s.subrange(j, s.len() as int), k) == Some(s[j].1),
        s[j].0 != k ==> alist_find(s.subrange(j, s.len() as int), k)
            == alist_find(s.subrange(j + 1, s.len() as int), k),
{
    let rest = s.subrange(j, s.len() as int);
    assert(rest[0] == s[j]);
    assert(rest.drop_first() =~= s.subrange(j + 1, s.len() as int));
}

} // verus!
