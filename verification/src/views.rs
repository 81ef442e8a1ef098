//! Read-only projections: per-account and per-deposit indices, intent
//! transfer details, the paginated open-listing view (descending by
//! identifier) and the funding-status scan. Paginated reads clamp the
//! supplied page size into `[1, 200]` with a default of 50.

use vstd::prelude::*;
use crate::records::{Deposit, Intent, FundingStatus, DepositFundingMeta,
    DepositSummaryV2, IntentTransferDetailsView};
use crate::state::Contract;
use crate::payparse::{parse_pm_spec, parse_payment_method};
use crate::text::dec_digits;

verus! {

/// The largest page a view will serve.
pub const MAX_VIEW_LIMIT: usize = 200;

/// The default page size of a view.
pub const DEFAULT_VIEW_LIMIT: usize = 50;

/// The page size actually served: the supplied one (50 when absent)
/// clamped into `[1, 200]`.
pub open spec fn norm_limit(limit: Option<u64>) -> int {
    let raw = match limit {
        Some(l) => l as int,
        None => 50,
    };
    if raw < 1 { 1 } else if raw > 200 { 200 } else { raw }
}

/// The identifiers of the deposits owned by `account`, in creation order.
pub open spec fn account_deposit_ids(s: Seq<Deposit>, account: Seq<char>) -> Seq<u64>
    decreases s.len(),
{
    if s.len() == 0 {
        Seq::<u64>::empty()
    } else {
        account_deposit_ids(s.drop_last(), account)
            + if s.last().depositor@ == account { seq![s.last().deposit_id] }
            else { Seq::<u64>::empty() }
    }
}

/// The hashes of the intents signaled by `account`, in creation order.
pub open spec fn account_intent_hashes(s: Seq<Intent>, account: Seq<char>) -> Seq<Seq<char>>
    decreases s.len(),
{
    if s.len() == 0 {
        Seq::<Seq<char>>::empty()
    } else {
        account_intent_hashes(s.drop_last(), account)
            + if s.last().buyer@ == account { seq![s.last().intent_hash@] }
            else { Seq::<Seq<char>>::empty() }
    }
}

/// The hashes of the intents against `deposit_id`, in creation order.
pub open spec fn deposit_intent_hashes(s: Seq<Intent>, deposit_id: u64) -> Seq<Seq<char>>
    decreases s.len(),
{
    if s.len() == 0 {
        Seq::<Seq<char>>::empty()
    } else {
        deposit_intent_hashes(s.drop_last(), deposit_id)
            + if s.last().deposit_id == deposit_id { seq![s.last().intent_hash@] }
            else { Seq::<Seq<char>>::empty() }
    }
}

/// The identifiers in `1..=bound` whose funding workflow is in `status`,
/// ascending.
pub open spec fn status_ids_upto(c: Contract, status: FundingStatus, bound: nat) -> Seq<u64>
    decreases bound,
{
    if bound == 0 {
        Seq::<u64>::empty()
    } else {
        status_ids_upto(c, status, (bound - 1) as nat)
            + (match c.spec_funding(bound as u64) {
                Some(m) => if m.status == status { seq![bound as u64] }
                    else { Seq::<u64>::empty() },
                None => Seq::<u64>::empty(),
            })
    }
}

/// The deterministic transfer memo of an intent: `anypay:<deposit>:<n>`,
/// where `<n>` is the intent hash with its `intent:` prefix removed (or
/// the whole hash if it carries no such prefix).
pub open spec fn transfer_memo(hash: Seq<char>, deposit_id: u64) -> Seq<char> {
    let suffix = if hash.len() >= 7 && hash.subrange(0, 7) == "intent:"@ {
        hash.subrange(7, hash.len() as int)
    } else {
        hash
    };
    "anypay:"@ + dec_digits(deposit_id as nat) + ":"@ + suffix
}

/// `s` is strictly descending.
pub open spec fn strictly_descending(s: Seq<u64>) -> bool {
    forall|a: int, b: int| 0 <= a < b < s.len() ==> #[trigger] s[a] > #[trigger] s[b]
}

/// `x` inserted into the strictly descending `s`, keeping the order.
pub open spec fn insert_desc(s: Seq<u64>, x: u64) -> Seq<u64>
    decreases s.len(),
{
    if s.len() == 0 {
        seq![x]
    } else if x >= s[0] {
        seq![x] + s
    } else {
        seq![s[0]] + insert_desc(s.drop_first(), x)
    }
}

/// `s` sorted in descending order by repeated insertion.
pub open spec fn sort_desc(s: Seq<u64>) -> Seq<u64>
    decreases s.len(),
{
    if s.len() == 0 {
        Seq::<u64>::empty()
    } else {
        insert_desc(sort_desc(s.drop_first()), s[0])
    }
}

proof fn lemma_insert_desc(s: Seq<u64>, x: u64)
    requires
        strictly_descending(s),
        !s.contains(x),
    ensures
        strictly_descending(insert_desc(s, x)),
        insert_desc(s, x).len() == s.len() + 1,
        forall|y: u64| #[trigger] insert_desc(s, x).contains(y) <==> s.contains(y) || y == x,
    decreases s.len(),
{
    let t = insert_desc(s, x);
    if s.len() == 0 {
        assert forall|y: u64| #[trigger] t.contains(y) implies y == x by {
            let i = choose|i: int| 0 <= i < t.len() && t[i] == y;
        }
        assert(t[0] == x);
    } else if x >= s[0] {
        assert(s[0] != x);
        assert(x > s[0]);
        assert forall|a: int, b: int| 0 <= a < b < t.len() implies t[a] > t[b] by {
            if a == 0 {
                assert(t[b] == s[b - 1]);
                if b > 1 {
                    assert(s[0] > s[b - 1]);
                }
            } else {
                assert(t[a] == s[a - 1] && t[b] == s[b - 1]);
            }
        }
        assert forall|y: u64| #[trigger] t.contains(y) implies s.contains(y) || y == x by {
            let i = choose|i: int| 0 <= i < t.len() && t[i] == y;
            if i > 0 {
                assert(s[i - 1] == y);
            }
        }
        assert forall|y: u64| s.contains(y) || y == x implies #[trigger] t.contains(y) by {
            if s.contains(y) {
                let i = choose|i: int| 0 <= i < s.len() && s[i] == y;
                assert(t[i + 1] == y);
            } else {
                assert(t[0] == y);
            }
        }
    } else {
        let rest = s.drop_first();
        assert(strictly_descending(rest));
        assert(!rest.contains(x)) by {
            if rest.contains(x) {
                let i = choose|i: int| 0 <= i < rest.len() && rest[i] == x;
                assert(s[i + 1] == x);
                assert(s.contains(x));
            }
        }
        lemma_insert_desc(rest, x);
        let u = insert_desc(rest, x);
        assert(t =~= seq![s[0]] + u);
        assert(s[0] > x);
        assert forall|a: int, b: int| 0 <= a < b < t.len() implies t[a] > t[b] by {
            if a == 0 {
                assert(t[b] == u[b - 1]);
                assert(u.contains(u[b - 1]));
                if u[b - 1] != x {
                    assert(rest.contains(u[b - 1]));
                    let i = choose|i: int| 0 <= i < rest.len() && rest[i] == u[b - 1];
                    assert(s[i + 1] == u[b - 1]);
                    assert(s[0] > s[i + 1]);
                }
            } else {
                assert(t[a] == u[a - 1] && t[b] == u[b - 1]);
            }
        }
        assert forall|y: u64| #[trigger] t.contains(y)
            implies s.contains(y) || y == x by {
            let i = choose|i: int| 0 <= i < t.len() && t[i] == y;
            if i == 0 {
                assert(s[0] == y);
            } else {
                assert(u[i - 1] == y);
                assert(u.contains(y));
                if rest.contains(y) {
                    let k = choose|k: int| 0 <= k < rest.len() && rest[k] == y;
                    assert(s[k + 1] == y);
                }
            }
        }
        assert forall|y: u64| s.contains(y) || y == x implies #[trigger] t.contains(y) by {
            if y == x || rest.contains(y) {
                assert(u.contains(y));
                let k = choose|k: int| 0 <= k < u.len() && u[k] == y;
                assert(t[k + 1] == y);
            } else {
                let i = choose|i: int| 0 <= i < s.len() && s[i] == y;
                if i == 0 {
                    assert(t[0] == y);
                } else {
                    assert(rest[i - 1] == y);
                    assert(rest.contains(y));
                }
            }
        }
    }
}

/// Sorting a duplicate-free sequence descending keeps its length and
/// membership and yields a strictly descending order.
pub proof fn lemma_sort_desc(s: Seq<u64>)
    requires
        forall|a: int, b: int| 0 <= a < b < s.len() ==> #[trigger] s[a] != #[trigger] s[b],
    ensures
        strictly_descending(sort_desc(s)),
        sort_desc(s).len() == s.len(),
        forall|y: u64| #[trigger] sort_desc(s).contains(y) <==> s.contains(y),
    decreases s.len(),
{
    if s.len() > 0 {
        let rest = s.drop_first();
        assert(forall|a: int, b: int| 0 <= a < b < rest.len()
            ==> #[trigger] rest[a] != #[trigger] rest[b]);
        lemma_sort_desc(rest);
        assert(!sort_desc(rest).contains(s[0])) by {
            if sort_desc(rest).contains(s[0]) {
                assert(rest.contains(s[0]));
                let i = choose|i: int| 0 <= i < rest.len() && rest[i] == s[0];
                assert(s[i + 1] == s[0]);
            }
        }
        lemma_insert_desc(sort_desc(rest), s[0]);
        assert forall|y: u64| #[trigger] sort_desc(s).contains(y)
            <==> s.contains(y) by {
            if sort_desc(s).contains(y) {
                if y != s[0] && rest.contains(y) {
                    let i = choose|i: int| 0 <= i < rest.len() && rest[i] == y;
                    assert(s[i + 1] == y);
                }
            }
            if s.contains(y) {
                let i = choose|i: int| 0 <= i < s.len() && s[i] == y;
                if i > 0 {
                    assert(rest[i - 1] == y);
                }
            }
        }
    }
}

impl Contract {
    /// The identifiers of all deposits owned by `account_id`.
    pub fn get_account_deposits(&self, account_id: &String) -> (r: Vec<u64>)
        ensures
            r@ == account_deposit_ids(self.deposits@, account_id@),
    {
        let n = self.deposits.len();
        let mut out: Vec<u64> = Vec::new();
        let mut i: usize = 0;
        proof {
            assert(self.deposits@.subrange(0, 0) =~= Seq::<Deposit>::empty());
        }
        while i < n
            invariant
                0 <= i <= n,
                n == self.deposits@.len(),
                out@ == account_deposit_ids(self.deposits@.subrange(0, i as int),
                    account_id@),
            decreases n - i,
        {
            proof {
                let sub = self.deposits@.subrange(0, i + 1);
                assert(sub.drop_last() =~= self.deposits@.subrange(0, i as int));
                assert(sub.last() == self.deposits@[i as int]);
            }
            if self.deposits[i].depositor == *account_id {
                out.push(self.deposits[i].deposit_id);
                proof {
                    assert(out@ =~= account_deposit_ids(self.deposits@.subrange(0, i + 1),
                        account_id@));
                }
            } else {
                proof {
                    assert(out@ =~= account_deposit_ids(self.deposits@.subrange(0, i + 1),
                        account_id@));
                }
            }
            i = i + 1;
        }
        proof {
            assert(self.deposits@.subrange(0, n as int) =~= self.deposits@);
        }
        out
    }

    /// Looks an intent up by its hash.
    pub fn get_intent(&self, intent_hash: &String) -> (r: Option<&Intent>)
        requires
            self.wf(),
        ensures
            r matches Some(it) <==> self.has_intent(intent_hash@),
            r matches Some(it) ==> *it == self.spec_intent(intent_hash@),
            r is None <==> !self.has_intent(intent_hash@),
    {
        match self.find_intent_index(intent_hash) {
            Some(i) => Some(&self.intents[i]),
            None => None,
        }
    }

    /// The hashes of all intents signaled by `account_id`.
    pub fn get_account_intents(&self, account_id: &String) -> (r: Vec<String>)
        ensures
            r@.map_values(|h: String| h@)
                == account_intent_hashes(self.intents@, account_id@),
    {
        let n = self.intents.len();
        let mut out: Vec<String> = Vec::new();
        let mut i: usize = 0;
        proof {
            assert(self.intents@.subrange(0, 0) =~= Seq::<Intent>::empty());
            assert(out@.map_values(|h: String| h@)
                =~= account_intent_hashes(self.intents@.subrange(0, 0), account_id@));
        }
        while i < n
            invariant
                0 <= i <= n,
                n == self.intents@.len(),
                out@.map_values(|h: String| h@)
                    == account_intent_hashes(self.intents@.subrange(0, i as int),
                        account_id@),
            decreases n - i,
        {
            proof {
                let sub = self.intents@.subrange(0, i + 1);
                assert(sub.drop_last() =~= self.intents@.subrange(0, i as int));
                assert(sub.last() == self.intents@[i as int]);
            }
            if self.intents[i].buyer == *account_id {
                out.push(self.intents[i].intent_hash.clone());
                proof {
                    assert(out@.map_values(|h: String| h@)
                        =~= account_intent_hashes(self.intents@.subrange(0, i + 1),
                            account_id@));
                }
            } else {
                proof {
                    assert(out@.map_values(|h: String| h@)
                        =~= account_intent_hashes(self.intents@.subrange(0, i + 1),
                            account_id@));
                }
            }
            i = i + 1;
        }
        proof {
            assert(self.intents@.subrange(0, n as int) =~= self.intents@);
        }
        out
    }

    /// The hashes of all intents ever signaled against `deposit_id`.
    pub fn get_deposit_intents(&self, deposit_id: u64) -> (r: Vec<String>)
        ensures
            r@.map_values(|h: String| h@) == deposit_intent_hashes(self.intents@, deposit_id),
    {
        let n = self.intents.len();
        let mut out: Vec<String> = Vec::new();
        let mut i: usize = 0;
        proof {
            assert(self.intents@.subrange(0, 0) =~= Seq::<Intent>::empty());
            assert(out@.map_values(|h: String| h@)
                =~= deposit_intent_hashes(self.intents@.subrange(0, 0), deposit_id));
        }
        while i < n
            invariant
                0 <= i <= n,
                n == self.intents@.len(),
                out@.map_values(|h: String| h@)
                    == deposit_intent_hashes(self.intents@.subrange(0, i as int), deposit_id),
            decreases n - i,
        {
            proof {
                let sub = self.intents@.subrange(0, i + 1);
                assert(sub.drop_last() =~= self.intents@.subrange(0, i as int));
                assert(sub.last() == self.intents@[i as int]);
            }
            if self.intents[i].deposit_id == deposit_id {
                out.push(self.intents[i].intent_hash.clone());
                proof {
                    assert(out@.map_values(|h: String| h@)
                        =~= deposit_intent_hashes(self.intents@.subrange(0, i + 1),
                            deposit_id));
                }
            } else {
                proof {
                    assert(out@.map_values(|h: String| h@)
                        =~= deposit_intent_hashes(self.intents@.subrange(0, i + 1),
                            deposit_id));
                }
            }
            i = i + 1;
        }
        proof {
            assert(self.intents@.subrange(0, n as int) =~= self.intents@);
        }
        out
    }

    /// The funding metadata of `deposit_id`, if it was registered on the
    /// funding path.
    pub fn get_deposit_funding_v2(&self, deposit_id: u64) -> (r: Option<&DepositFundingMeta>)
        ensures
            r matches Some(m) <==> self.spec_funding(deposit_id) is Some,
            r matches Some(m) ==> self.spec_funding(deposit_id) == Some(*m),
            r is None <==> self.spec_funding(deposit_id) is None,
    {
        match self.find_funding_index(deposit_id) {
            Some(fj) => Some(&self.deposit_funding[fj].1),
            None => None,
        }
    }

    /// The page size actually served for a requested `limit`.
    pub fn normalized_limit(limit: Option<u64>) -> (r: usize)
        ensures
            r == norm_limit(limit),
            1 <= r <= 200,
    {
        let raw: u64 = match limit {
            Some(l) => l,
            None => DEFAULT_VIEW_LIMIT as u64,
        };
        if raw < 1 {
            1
        } else if raw > MAX_VIEW_LIMIT as u64 {
            MAX_VIEW_LIMIT
        } else {
            raw as usize
        }
    }

    /// The transfer instructions derived from an intent: the parsed
    /// `platform::tagname` pair of its payment method and the deterministic
    /// `anypay:<deposit>:<n>` memo.
    pub fn get_intent_transfer_details(&self, intent_hash: &String)
        -> (r: Option<IntentTransferDetailsView>)
        requires
            self.wf(),
        ensures
            r is Some <==> self.has_intent(intent_hash@),
            r matches Some(v) ==> {
                let it = self.spec_intent(intent_hash@);
                &&& v.intent_hash@ == it.intent_hash@
                &&& v.deposit_id == it.deposit_id
                &&& v.amount == it.amount
                &&& v.currency_code@ == it.currency_code@
                &&& v.payment_method_raw@ == it.payment_method@
                &&& (v.platform@, v.tagname@) == parse_pm_spec(it.payment_method@)
                &&& v.memo@ == transfer_memo(it.intent_hash@, it.deposit_id)
            },
    {
        let i = match self.find_intent_index(intent_hash) {
            None => {
                return None;
            },
            Some(i) => i,
        };
        let it = &self.intents[i];
        let (platform, tagname) = parse_payment_method(it.payment_method.as_str());
        let memo = Self::build_intent_transfer_memo(&it.intent_hash, it.deposit_id);
        Some(IntentTransferDetailsView {
            intent_hash: it.intent_hash.clone(),
            deposit_id: it.deposit_id,
            amount: it.amount,
            currency_code: it.currency_code.clone(),
            payment_method_raw: it.payment_method.clone(),
            platform,
            tagname,
            memo,
        })
    }

    /// Builds the deterministic `anypay:<deposit>:<n>` transfer memo.
    pub fn build_intent_transfer_memo(intent_hash: &String, deposit_id: u64) -> (r: String)
        ensures
            r@ == transfer_memo(intent_hash@, deposit_id),
    {
        let h = intent_hash.as_str();
        let n = h.unicode_len();
        let prefixed = n >= 7 && h.get_char(0) == 'i' && h.get_char(1) == 'n'
            && h.get_char(2) == 't' && h.get_char(3) == 'e' && h.get_char(4) == 'n'
            && h.get_char(5) == 't' && h.get_char(6) == ':';
        proof {
            reveal_strlit("intent:");
            if n >= 7 {
                assert(prefixed <==> h@.subrange(0, 7) =~= "intent:"@) by {
                    if prefixed {
                        assert(h@.subrange(0, 7) =~= "intent:"@);
                    }
                    if h@.subrange(0, 7) =~= "intent:"@ {
                        assert(h@.subrange(0, 7)[0] == 'i');
                        assert(h@.subrange(0, 7)[1] == 'n');
                        assert(h@.subrange(0, 7)[2] == 't');
                        assert(h@.subrange(0, 7)[3] == 'e');
                        assert(h@.subrange(0, 7)[4] == 'n');
                        assert(h@.subrange(0, 7)[5] == 't');
                        assert(h@.subrange(0, 7)[6] == ':');
                    }
                }
            }
        }
        let suffix = if prefixed {
            h.substring_char(7, n).to_owned()
        } else {
            intent_hash.clone()
        };
        let num = crate::text::u64_to_dec(deposit_id);
        let mut memo = String::new();
        memo.append("anypay:");
        memo.append(num.as_str());
        memo.append(":");
        memo.append(suffix.as_str());
        proof {
            assert(memo@ =~= transfer_memo(intent_hash@, deposit_id));
        }
        memo
    }


    /// Copies a vector of strings.
    fn clone_strings(v: &Vec<String>) -> (r: Vec<String>)
        ensures
            r@ == v@,
    {
        let n = v.len();
        let mut out: Vec<String> = Vec::new();
        let mut i: usize = 0;
        while i < n
            invariant
                0 <= i <= n,
                n == v@.len(),
                out@ == v@.subrange(0, i as int),
            decreases n - i,
        {
            out.push(v[i].clone());
            proof {
                assert(out@ =~= v@.subrange(0, i + 1));
            }
            i = i + 1;
        }
        proof {
            assert(v@.subrange(0, n as int) =~= v@);
        }
        out
    }

    /// `v` is the open-listing summary of `deposit_id`.
    pub open spec fn is_summary_of(self, v: DepositSummaryV2, deposit_id: u64) -> bool {
        let d = self.spec_deposit(deposit_id);
        let m = self.spec_funding(deposit_id)->Some_0;
        &&& v.deposit_id == deposit_id
        &&& v.asset_id@ == m.asset_id@
        &&& v.depositor@ == d.depositor@
        &&& (match v.delegate {
            Some(g) => d.delegate matches Some(g0) && g@ == g0@,
            None => d.delegate is None,
        })
        &&& v.payment_methods@ == d.payment_methods@
        &&& v.min_intent_amount == d.min_intent_amount
        &&& v.max_intent_amount == d.max_intent_amount
        &&& v.funded_amount == m.funded_amount
        &&& v.remaining_deposits == d.remaining_deposits
        &&& v.topup_deadline_at_ms == m.topup_deadline_at_ms
        &&& v.quote_expires_at_ms == m.quote_expires_at_ms
        &&& v.status == m.status
        &&& v.updated_at_ms == m.updated_at_ms
    }

    /// Builds the open-listing summary of `deposit_id`, or nothing when it
    /// is unknown, not funded, or exhausted.
    pub fn build_deposit_summary_v2(&self, deposit_id: u64) -> (r: Option<DepositSummaryV2>)
        requires
            self.wf(),
        ensures
            r is Some <==> self.should_list(deposit_id),
            r matches Some(v) ==> self.is_summary_of(v, deposit_id),
    {
        let d = match self.get_deposit(deposit_id) {
            None => {
                return None;
            },
            Some(d) => d,
        };
        let fj = match self.find_funding_index(deposit_id) {
            None => {
                return None;
            },
            Some(fj) => fj,
        };
        let funded = match self.deposit_funding[fj].1.status {
            FundingStatus::Funded => true,
            _ => false,
        };
        if !funded || d.remaining_deposits == 0 {
            return None;
        }
        let m = &self.deposit_funding[fj].1;
        Some(DepositSummaryV2 {
            deposit_id,
            asset_id: m.asset_id.clone(),
            depositor: d.depositor.clone(),
            delegate: match &d.delegate {
                Some(g) => Some(g.clone()),
                None => None,
            },
            payment_methods: Self::clone_strings(&d.payment_methods),
            min_intent_amount: d.min_intent_amount,
            max_intent_amount: d.max_intent_amount,
            funded_amount: m.funded_amount,
            remaining_deposits: d.remaining_deposits,
            topup_deadline_at_ms: m.topup_deadline_at_ms,
            quote_expires_at_ms: m.quote_expires_at_ms,
            status: m.status,
            updated_at_ms: m.updated_at_ms,
        })
    }

    /// The funded listings under `asset_id` with spare liquidity,
    /// descending by deposit identifier, from position `from_index` on, at
    /// most the normalized `limit` long. The page is a window of the unique
    /// strictly descending enumeration of the asset's open listings.
    pub fn get_open_deposits_by_asset_v2(&self, asset_id: &String, from_index: Option<u64>,
        limit: Option<u64>) -> (r: Vec<DepositSummaryV2>)
        requires
            self.wf(),
        ensures
            exists|ids: Seq<u64>|
                #![trigger strictly_descending(ids)]
                {
                    let start = if (match from_index { Some(f) => f as int, None => 0 })
                        <= ids.len() {
                        match from_index { Some(f) => f as int, None => 0 }
                    } else {
                        ids.len() as int
                    };
                    let end = if start + norm_limit(limit) <= ids.len() {
                        start + norm_limit(limit)
                    } else {
                        ids.len() as int
                    };
                    &&& strictly_descending(ids)
                    &&& (forall|x: u64| #[trigger] ids.contains(x)
                        <==> self.listed(asset_id@, x))
                    &&& r@.len() == end - start
                    &&& (forall|k: int| 0 <= k < r@.len()
                        ==> self.is_summary_of(#[trigger] r@[k], ids[start + k]))
                },
    {
        let limit_n = Self::normalized_limit(limit);
        let start_u: u64 = match from_index {
            Some(f) => f,
            None => 0,
        };
        let entry = self.find_asset_entry(asset_id);
        let ids: Vec<u64> = match entry {
            Some(j) => Self::clone_ids(&self.open_deposits_by_asset[j].1),
            None => Vec::new(),
        };
        let ghost raw = ids@;
        proof {
            match entry {
                Some(j) => {
                    assert forall|x: u64| raw.contains(x)
                        <==> #[trigger] self.listed(asset_id@, x) by {
                        if raw.contains(x) {
                            assert(self.open_deposits_by_asset@[j as int].0@ == asset_id@
                                && self.open_deposits_by_asset@[j as int].1@.contains(x));
                        }
                        if self.listed(asset_id@, x) {
                            let w = choose|w: int|
                                0 <= w < self.open_deposits_by_asset@.len()
                                && (#[trigger] self.open_deposits_by_asset@[w]).0@
                                    == asset_id@
                                && self.open_deposits_by_asset@[w].1@.contains(x);
                            if w < j as int {
                                assert(self.open_deposits_by_asset@[w].0@ != asset_id@);
                            } else if w > j as int {
                                assert(self.open_deposits_by_asset@[j as int].0@
                                    != self.open_deposits_by_asset@[w].0@);
                            }
                        }
                    }
                },
                None => {
                    assert forall|x: u64| raw.contains(x)
                        <==> #[trigger] self.listed(asset_id@, x) by {
                        if self.listed(asset_id@, x) {
                            let w = choose|w: int|
                                0 <= w < self.open_deposits_by_asset@.len()
                                && (#[trigger] self.open_deposits_by_asset@[w]).0@
                                    == asset_id@
                                && self.open_deposits_by_asset@[w].1@.contains(x);
                        }
                    }
                },
            }
            assert(forall|a: int, b: int| 0 <= a < b < raw.len()
                ==> #[trigger] raw[a] != #[trigger] raw[b]);
            lemma_sort_desc(raw);
        }
        let sorted = Self::sort_ids_desc(ids);
        let ghost full = sort_desc(raw);
        let total = sorted.len();
        let start: usize = if start_u <= total as u64 { start_u as usize } else { total };
        let end: usize = if limit_n <= total - start { start + limit_n } else { total };
        let mut out: Vec<DepositSummaryV2> = Vec::new();
        let mut k: usize = start;
        while k < end
            invariant
                self.wf(),
                start <= k <= end <= total,
                total == sorted@.len(),
                sorted@ == full,
                forall|x: u64| #[trigger] full.contains(x) <==> self.listed(asset_id@, x),
                out@.len() == k - start,
                forall|p: int| 0 <= p < out@.len()
                    ==> self.is_summary_of(#[trigger] out@[p], full[start + p]),
            decreases end - k,
        {
            let id = sorted[k];
            proof {
                assert(full.contains(full[k as int]));
                assert(self.listed(asset_id@, id));
                assert(self.should_list(id));
            }
            match self.build_deposit_summary_v2(id) {
                Some(summary) => {
                    if summary.asset_id == *asset_id {
                        out.push(summary);
                    }
                },
                None => { },
            }
            k = k + 1;
        }
        out
    }

    /// Copies a vector of identifiers.
    fn clone_ids(v: &Vec<u64>) -> (r: Vec<u64>)
        ensures
            r@ == v@,
    {
        let n = v.len();
        let mut out: Vec<u64> = Vec::new();
        let mut i: usize = 0;
        while i < n
            invariant
                0 <= i <= n,
                n == v@.len(),
                out@ == v@.subrange(0, i as int),
            decreases n - i,
        {
            out.push(v[i]);
            proof {
                assert(out@ =~= v@.subrange(0, i + 1));
            }
            i = i + 1;
        }
        proof {
            assert(v@.subrange(0, n as int) =~= v@);
        }
        out
    }

    /// Sorts identifiers in descending order by insertion.
    fn sort_ids_desc(v: Vec<u64>) -> (r: Vec<u64>)
        ensures
            r@ == sort_desc(v@),
    {
        let n = v.len();
        let mut out: Vec<u64> = Vec::new();
        let mut i: usize = n;
        proof {
            assert(v@.subrange(n as int, n as int) =~= Seq::<u64>::empty());
        }
        while i > 0
            invariant
                0 <= i <= n,
                n == v@.len(),
                out@ == sort_desc(v@.subrange(i as int, n as int)),
            decreases i,
        {
            i = i - 1;
            let x = v[i];
            proof {
                let sub = v@.subrange(i as int, n as int);
                assert(sub[0] == v@[i as int]);
                assert(sub.drop_first() =~= v@.subrange(i + 1, n as int));
            }
            out = Self::insert_id_desc(out, x);
        }
        proof {
            assert(v@.subrange(0, n as int) =~= v@);
        }
        out
    }

    /// Finds the open-listing entry keyed by `asset`.
    fn find_asset_entry(&self, asset: &String) -> (r: Option<usize>)
        requires
            self.wf(),
        ensures
            r matches Some(j) ==> j < self.open_deposits_by_asset@.len()
                && self.open_deposits_by_asset@[j as int].0@ == asset@
                && (forall|k: int| 0 <= k < self.open_deposits_by_asset@.len() && k != j
                    ==> (#[trigger] self.open_deposits_by_asset@[k]).0@ != asset@),
            r is None ==> forall|k: int| 0 <= k < self.open_deposits_by_asset@.len()
                ==> (#[trigger] self.open_deposits_by_asset@[k]).0@ != asset@,
    {
        let n = self.open_deposits_by_asset.len();
        let mut j: usize = 0;
        while j < n
            invariant
                0 <= j <= n,
                self.wf(),
                n == self.open_deposits_by_asset@.len(),
                forall|k: int| 0 <= k < j
                    ==> (#[trigger] self.open_deposits_by_asset@[k]).0@ != asset@,
            decreases n - j,
        {
            if self.open_deposits_by_asset[j].0 == *asset {
                return Some(j);
            }
            j = j + 1;
        }
        None
    }

    /// Inserts one identifier into a descending vector, keeping the order.
    fn insert_id_desc(v: Vec<u64>, x: u64) -> (r: Vec<u64>)
        ensures
            r@ == insert_desc(v@, x),
    {
        let n = v.len();
        proof {
            assert(v@.subrange(0, 0) =~= Seq::<u64>::empty());
            assert(v@.subrange(0, n as int) =~= v@);
            assert(insert_desc(v@, x) =~= v@.subrange(0, 0)
                + insert_desc(v@.subrange(0, n as int), x));
        }
        let mut pos: usize = 0;
        while pos < n && v[pos] > x
            invariant
                0 <= pos <= n,
                n == v@.len(),
                forall|k: int| 0 <= k < pos ==> #[trigger] v@[k] > x,
                insert_desc(v@, x) == v@.subrange(0, pos as int)
                    + insert_desc(v@.subrange(pos as int, n as int), x),
            decreases n - pos,
        {
            proof {
                let sub = v@.subrange(pos as int, n as int);
                assert(sub[0] == v@[pos as int]);
                assert(sub.drop_first() =~= v@.subrange(pos + 1, n as int));
                assert(v@.subrange(0, pos as int).push(v@[pos as int])
                    =~= v@.subrange(0, pos + 1));
                assert(v@.subrange(0, pos as int) + (seq![sub[0]]
                    + insert_desc(sub.drop_first(), x))
                    =~= v@.subrange(0, pos + 1)
                        + insert_desc(v@.subrange(pos + 1, n as int), x));
            }
            pos = pos + 1;
        }
        let mut out = v;
        out.insert(pos, x);
        proof {
            let sub = out@.subrange(pos as int, n as int + 1);
            if pos < n {
                assert(!(v@[pos as int] > x));
            }
            assert(insert_desc(v@.subrange(pos as int, n as int), x)
                =~= seq![x] + v@.subrange(pos as int, n as int));
            assert(out@ =~= v@.subrange(0, pos as int)
                + (seq![x] + v@.subrange(pos as int, n as int)));
        }
        out
    }

    /// The identifiers whose funding workflow is in `status`, ascending,
    /// from position `from_index` on, at most the normalized `limit` long.
    pub fn get_deposits_by_funding_status_v2(&self, status: FundingStatus,
        from_index: Option<u64>, limit: Option<u64>) -> (r: Vec<u64>)
        requires
            self.wf(),
        ensures
            ({
                let full = status_ids_upto(*self, status, self.deposit_counter as nat);
                let start = if (match from_index { Some(f) => f as int, None => 0 })
                    <= full.len() {
                    match from_index { Some(f) => f as int, None => 0 }
                } else {
                    full.len() as int
                };
                let end = if start + norm_limit(limit) <= full.len() {
                    start + norm_limit(limit)
                } else {
                    full.len() as int
                };
                r@ == full.subrange(start, end)
            }),
    {
        let limit_n = Self::normalized_limit(limit);
        let start_u: u64 = match from_index {
            Some(f) => f,
            None => 0,
        };
        let n = self.deposit_counter;
        let mut matched: Vec<u64> = Vec::new();
        let mut i: u64 = 0;
        proof {
            assert(matched@ =~= status_ids_upto(*self, status, 0));
        }
        while i < n
            invariant
                0 <= i <= n,
                n == self.deposit_counter,
                self.wf(),
                matched@ == status_ids_upto(*self, status, i as nat),
            decreases n - i,
        {
            let id = i + 1;
            match self.find_funding_index(id) {
                Some(fj) => {
                    if self.deposit_funding[fj].1.status == status {
                        matched.push(id);
                    }
                },
                None => { },
            }
            proof {
                assert(matched@ =~= status_ids_upto(*self, status, id as nat));
            }
            i = id;
        }
        let total = matched.len();
        let start: usize = if start_u <= total as u64 { start_u as usize } else { total };
        let end: usize = if limit_n <= total - start { start + limit_n } else { total };
        let mut out: Vec<u64> = Vec::new();
        let mut k: usize = start;
        while k < end
            invariant
                start <= k <= end <= total,
                total == matched@.len(),
                out@ == matched@.subrange(start as int, k as int),
            decreases end - k,
        {
            out.push(matched[k]);
            proof {
                assert(out@ =~= matched@.subrange(start as int, k + 1));
            }
            k = k + 1;
        }
        proof {
            assert(out@ =~= matched@.subrange(start as int, end as int));
        }
        out
    }
}

} // verus!
