use vstd::prelude::*;
use crate::accounts::{balance_of, Account};
use crate::amount::Amount;
use crate::idmap::{entries_map, lemma_entries_map_at, sorted_keys, sum_by};
use crate::priority::{lemma_sum_prefix, open_amount, open_claim_seq, PriorityClaim};

verus! {

/// Shares of vault number `k` held over all accounts of `s`.
pub open spec fn held_shares(s: Seq<(u64, Account)>, k: u64) -> nat {
    sum_by(s, |a: Account| balance_of(a.spec_portfolio().shares_view(), k))
}

/// Units of asset number `k` held over all accounts of `s`.
pub open spec fn held_assets(s: Seq<(u64, Account)>, k: u64) -> nat {
    sum_by(s, |a: Account| balance_of(a.spec_portfolio().assets_view(), k))
}

/// What a claim still owes to vault number `k`.
pub open spec fn owed_to(c: PriorityClaim, k: u64) -> nat {
    if c.spec_vault()@ == k { open_amount(c) } else { 0 }
}

/// The open claims of `s` on vault number `k`.
pub open spec fn owed_claims(s: Seq<(u64, PriorityClaim)>, k: u64) -> nat {
    sum_by(s, |c: PriorityClaim| owed_to(c, k))
}

/// The amounts of the entries of `s` filed under key `k`.
pub open spec fn key_total(s: Seq<(u64, Amount)>, k: u64) -> nat
    decreases s.len(),
{
    if s.len() == 0 {
        0
    } else {
        key_total(s.drop_last(), k) + if s.last().0 == k { s.last().1@ } else { 0 }
    }
}

/// What the claims of `s` owe to vault number `k`.
pub open spec fn claims_owed(s: Seq<PriorityClaim>, k: u64) -> nat
    decreases s.len(),
{
    if s.len() == 0 {
        0
    } else {
        claims_owed(s.drop_last(), k) + owed_to(s.last(), k)
    }
}

/// In a sorted entry list the amounts under a key are its balance.
pub proof fn lemma_key_total(s: Seq<(u64, Amount)>, k: u64)
    requires
        sorted_keys(s),
    ensures
        key_total(s, k) == balance_of(entries_map(s), k),
    decreases s.len(),
{
    if s.len() > 0 {
        let t = s.drop_last();
        let n = s.len() - 1;
        lemma_key_total(t, k);
        lemma_entries_map_at(s, n);
        if s.last().0 == k {
            if entries_map(t).contains_key(k) {
                let j = choose|j: int| 0 <= j < t.len() && t[j].0 == k;
                assert(s[j].0 < s[n].0);
            }
        } else {
            if entries_map(s).contains_key(k) {
                let j = choose|j: int| 0 <= j < s.len() && s[j].0 == k;
                lemma_entries_map_at(s, j);
                lemma_entries_map_at(t, j);
            }
            if entries_map(t).contains_key(k) {
                let j = choose|j: int| 0 <= j < t.len() && t[j].0 == k;
                lemma_entries_map_at(s, j);
                lemma_entries_map_at(t, j);
            }
        }
    }
}

/// A prefix holds no more under a key than the whole list.
pub proof fn lemma_key_total_prefix(s: Seq<(u64, Amount)>, j: int, k: u64)
    requires
        0 <= j <= s.len(),
    ensures
        key_total(s.take(j), k) <= key_total(s, k),
    decreases s.len(),
{
    if j < s.len() {
        assert(s.drop_last().take(j) =~= s.take(j));
        lemma_key_total_prefix(s.drop_last(), j, k);
    } else {
        assert(s.take(j) =~= s);
    }
}

/// Taking one more entry adds what it holds under the key.
pub proof fn lemma_key_total_step(s: Seq<(u64, Amount)>, j: int, k: u64)
    requires
        0 <= j < s.len(),
    ensures
        key_total(s.take(j + 1), k) == key_total(s.take(j), k) + if s[j].0 == k { s[j].1@ } else { 0 },
{
    assert(s.take(j + 1).drop_last() =~= s.take(j));
}

/// The open claims list owes what the claim book owes.
pub proof fn lemma_claims_owed(s: Seq<(u64, PriorityClaim)>, k: u64)
    ensures
        claims_owed(open_claim_seq(s), k) == owed_claims(s, k),
    decreases s.len(),
{
    if s.len() > 0 {
        lemma_claims_owed(s.drop_last(), k);
        let rest = open_claim_seq(s.drop_last());
        if s.last().1.spec_state() is Pending {
            assert(rest.push(s.last().1).drop_last() =~= rest);
        }
    }
}

/// A prefix of a claims list owes no more than the whole list.
pub proof fn lemma_claims_owed_prefix(s: Seq<PriorityClaim>, j: int, k: u64)
    requires
        0 <= j <= s.len(),
    ensures
        claims_owed(s.take(j), k) <= claims_owed(s, k),
    decreases s.len(),
{
    if j < s.len() {
        assert(s.drop_last().take(j) =~= s.take(j));
        lemma_claims_owed_prefix(s.drop_last(), j, k);
    } else {
        assert(s.take(j) =~= s);
    }
}

/// Taking one more claim adds what it owes.
pub proof fn lemma_claims_owed_step(s: Seq<PriorityClaim>, j: int, k: u64)
    requires
        0 <= j < s.len(),
    ensures
        claims_owed(s.take(j + 1), k) == claims_owed(s.take(j), k) + owed_to(s[j], k),
{
    assert(s.take(j + 1).drop_last() =~= s.take(j));
}

/// Taking one more account adds what it holds.
pub proof fn lemma_held_step(s: Seq<(u64, Account)>, i: int, k: u64)
    requires
        0 <= i < s.len(),
    ensures
        held_shares(s.take(i + 1), k) == held_shares(s.take(i), k) + balance_of(s[i].1.spec_portfolio().shares_view(), k),
        held_assets(s.take(i + 1), k) == held_assets(s.take(i), k) + balance_of(s[i].1.spec_portfolio().assets_view(), k),
{
    assert(s.take(i + 1).drop_last() =~= s.take(i));
}

/// Some accounts hold no more than all of them.
pub proof fn lemma_held_prefix(s: Seq<(u64, Account)>, i: int, k: u64)
    requires
        0 <= i <= s.len(),
    ensures
        held_shares(s.take(i), k) <= held_shares(s, k),
        held_assets(s.take(i), k) <= held_assets(s, k),
{
    lemma_sum_prefix(s, i, |a: Account| balance_of(a.spec_portfolio().shares_view(), k));
    lemma_sum_prefix(s, i, |a: Account| balance_of(a.spec_portfolio().assets_view(), k));
}

/// Every claim on the open claims list is pending.
pub proof fn lemma_open_seq_pending(s: Seq<(u64, PriorityClaim)>)
    ensures
        forall|j: int| 0 <= j < open_claim_seq(s).len() ==> (#[trigger] open_claim_seq(s)[j]).spec_state() is Pending,
    decreases s.len(),
{
    if s.len() > 0 {
        lemma_open_seq_pending(s.drop_last());
    }
}

} // verus!
