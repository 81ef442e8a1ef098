//! The `platform::tagname` payment-method convention: a small pure parser
//! that splits a raw payment-method string at the first `::`, trims both
//! parts, and lowercases the platform.

use vstd::prelude::*;
use crate::text::{trim_spec, lower_spec, trim_str, lower_str};

verus! {

/// The position of the first `::` separator at or after `i`, if any.
pub open spec fn sep_search(s: Seq<char>, i: nat) -> Option<nat>
    decreases (if i <= s.len() { (s.len() - i) as nat } else { 0 }),
{
    if i + 2 > s.len() {
        None
    } else if s[i as int] == ':' && s[i as int + 1] == ':' {
        Some(i)
    } else {
        sep_search(s, i + 1)
    }
}

/// The `(platform, tagname)` pair a raw payment-method string denotes:
/// both sides of the first `::` of the trimmed string, each trimmed, the
/// platform lowercased; without a separator the whole string is the
/// platform and the tagname is empty.
pub open spec fn parse_pm_spec(raw: Seq<char>) -> (Seq<char>, Seq<char>) {
    let t = trim_spec(raw);
    if t.len() == 0 {
        (Seq::<char>::empty(), Seq::<char>::empty())
    } else {
        match sep_search(t, 0) {
            Some(i) => (
                lower_spec(trim_spec(t.subrange(0, i as int))),
                trim_spec(t.subrange(i as int + 2, t.len() as int)),
            ),
            None => (lower_spec(t), Seq::<char>::empty()),
        }
    }
}

/// A raw payment-method string is well-formed when both its platform and
/// its tagname are non-empty.
pub open spec fn pm_wellformed(raw: Seq<char>) -> bool {
    parse_pm_spec(raw).0.len() > 0 && parse_pm_spec(raw).1.len() > 0
}

/// Some element of `ms` is a well-formed `platform::tagname` pair.
pub open spec fn has_wellformed_pm(ms: Seq<String>) -> bool {
    exists|i: int| 0 <= i < ms.len() && pm_wellformed(ms[i]@)
}

/// The index of the first well-formed element of `ms`.
pub open spec fn first_wellformed_pm(ms: Seq<String>) -> int
    decreases ms.len(),
{
    if ms.len() == 0 {
        0
    } else if pm_wellformed(ms[0]@) {
        0
    } else {
        1 + first_wellformed_pm(ms.drop_first())
    }
}

/// Splits a raw payment-method string into its `(platform, tagname)` pair.
pub fn parse_payment_method(raw: &str) -> (r: (String, String))
    ensures
        (r.0@, r.1@) == parse_pm_spec(raw@),
{
    let trimmed = trim_str(raw);
    let t = trimmed.as_str();
    let n = t.unicode_len();
    if n == 0 {
        return (String::new(), String::new());
    }
    let mut i: usize = 0;
    while i < n && i + 1 < n && !(t.get_char(i) == ':' && t.get_char(i + 1) == ':')
        invariant
            0 <= i <= n,
            n == t@.len(),
            sep_search(t@, 0) == sep_search(t@, i as nat),
        decreases n - i,
    {
        proof {
            assert(sep_search(t@, i as nat) == sep_search(t@, (i + 1) as nat));
        }
        i = i + 1;
    }
    if i < n && i + 1 < n {
        assert(sep_search(t@, 0) == Some(i as nat));
        let left = t.substring_char(0, i);
        let right = t.substring_char(i + 2, n);
        let platform = lower_str(trim_str(left).as_str());
        let tagname = trim_str(right);
        (platform, tagname)
    } else {
        assert(sep_search(t@, 0) == sep_search(t@, i as nat));
        assert(sep_search(t@, i as nat) is None);
        let platform = lower_str(t);
        (platform, String::new())
    }
}

/// The `(platform, tagname)` pair of the first well-formed entry of `ms`,
/// if any entry is well-formed.
pub fn extract_payment_details(ms: &Vec<String>) -> (r: Option<(String, String)>)
    ensures
        r is Some <==> has_wellformed_pm(ms@),
        r matches Some(p) ==> {
            let i = first_wellformed_pm(ms@);
            &&& 0 <= i < ms@.len()
            &&& pm_wellformed(ms@[i]@)
            &&& (p.0@, p.1@) == parse_pm_spec(ms@[i]@)
        },
{
    let n = ms.len();
    let mut i: usize = 0;
    while i < n
        invariant
            0 <= i <= n,
            n == ms@.len(),
            forall|k: int| 0 <= k < i ==> !pm_wellformed(ms@[k]@),
        decreases n - i,
    {
        let (platform, tagname) = parse_payment_method(ms[i].as_str());
        if platform.as_str().unicode_len() > 0 && tagname.as_str().unicode_len() > 0 {
            proof {
                lemma_first_wellformed_pm(ms@, i as int);
            }
            return Some((platform, tagname));
        }
        i = i + 1;
    }
    None
}

proof fn lemma_first_wellformed_pm(ms: Seq<String>, i: int)
    requires
        0 <= i < ms.len(),
        pm_wellformed(ms[i]@),
        forall|k: int| 0 <= k < i ==> !pm_wellformed(ms[k]@),
    ensures
        first_wellformed_pm(ms) == i,
    decreases i,
{
    if i > 0 {
        let t = ms.drop_first();
        assert(forall|k: int| 0 <= k < i - 1 ==> !pm_wellformed(#[trigger] t[k]@));
        lemma_first_wellformed_pm(t, i - 1);
    }
}

} // verus!
