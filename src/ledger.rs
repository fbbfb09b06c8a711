//! The ownership ledger of one asset: a holder set kept as a sequence of
//! records with distinct owners, in order of first credit.
use vstd::prelude::*;
use crate::types::{Address, OwnershipRecord};

verus! {

/// Sum of the balances of a sequence of records.
pub open spec fn sum_balances(s: Seq<OwnershipRecord>) -> int
    decreases s.len(),
{
    if s.len() == 0 {
        0
    } else {
        sum_balances(s.drop_last()) + s.last().balance
    }
}

/// Number of records whose balance is positive.
pub open spec fn count_positive(s: Seq<OwnershipRecord>) -> nat
    decreases s.len(),
{
    if s.len() == 0 {
        0
    } else {
        count_positive(s.drop_last()) + if s.last().balance > 0 { 1nat } else { 0nat }
    }
}

/// The record of `a`, if the holder set has one.
pub open spec fn record_of(s: Seq<OwnershipRecord>, a: Address) -> Option<OwnershipRecord>
    decreases s.len(),
{
    if s.len() == 0 {
        None
    } else if s.last().owner == a {
        Some(s.last())
    } else {
        record_of(s.drop_last(), a)
    }
}

/// The balance of `a`: zero for a principal without a record.
pub open spec fn balance_in(s: Seq<OwnershipRecord>, a: Address) -> int {
    match record_of(s, a) {
        Some(r) => r.balance as int,
        None => 0,
    }
}

/// The dividends that `a` has accrued and not claimed: zero without a record.
pub open spec fn unclaimed_in(s: Seq<OwnershipRecord>, a: Address) -> int {
    match record_of(s, a) {
        Some(r) => r.unclaimed_dividends as int,
        None => 0,
    }
}

pub open spec fn owners_unique(s: Seq<OwnershipRecord>) -> bool {
    forall|i: int, j: int| 0 <= i < j < s.len() ==> s[i].owner != s[j].owner
}

/// A well-formed holder set: distinct owners, no negative balance or accrual.
pub open spec fn holders_ok(s: Seq<OwnershipRecord>) -> bool {
    &&& owners_unique(s)
    &&& forall|i: int|
        0 <= i < s.len() ==> #[trigger] s[i].balance >= 0 && s[i].unclaimed_dividends >= 0
}

pub proof fn lemma_record_of_index(s: Seq<OwnershipRecord>, i: int)
    requires
        owners_unique(s),
        0 <= i < s.len(),
    ensures
        record_of(s, s[i].owner) == Some(s[i]),
    decreases s.len(),
{
    if i != s.len() - 1 {
        let d = s.drop_last();
        assert(d[i] == s[i]);
        lemma_record_of_index(d, i);
    }
}

pub proof fn lemma_record_of_absent(s: Seq<OwnershipRecord>, a: Address)
    requires
        forall|i: int| 0 <= i < s.len() ==> #[trigger] s[i].owner != a,
    ensures
        record_of(s, a) == None::<OwnershipRecord>,
    decreases s.len(),
{
    if s.len() > 0 {
        let d = s.drop_last();
        assert forall|i: int| 0 <= i < d.len() implies #[trigger] d[i].owner != a by {
            assert(d[i] == s[i]);
        }
        lemma_record_of_absent(d, a);
    }
}

/// A record of the set is the record of its owner; a principal without a record
/// in the set has none.
pub proof fn lemma_record_of_found(s: Seq<OwnershipRecord>, a: Address)
    requires
        owners_unique(s),
    ensures
        match record_of(s, a) {
            Some(r) => exists|i: int| 0 <= i < s.len() && s[i] == r && r.owner == a,
            None => forall|i: int| 0 <= i < s.len() ==> #[trigger] s[i].owner != a,
        },
{
    if exists|i: int| 0 <= i < s.len() && s[i].owner == a {
        let i = choose|i: int| 0 <= i < s.len() && s[i].owner == a;
        lemma_record_of_index(s, i);
    } else {
        lemma_record_of_absent(s, a);
    }
}

pub proof fn lemma_record_of_update(s: Seq<OwnershipRecord>, i: int, r: OwnershipRecord)
    requires
        owners_unique(s),
        0 <= i < s.len(),
        r.owner == s[i].owner,
    ensures
        owners_unique(s.update(i, r)),
        forall|b: Address|
            #[trigger] record_of(s.update(i, r), b) == if b == r.owner {
                Some(r)
            } else {
                record_of(s, b)
            },
{
    let t = s.update(i, r);
    assert(owners_unique(t)) by {
        assert forall|j: int, k: int| 0 <= j < k < t.len() implies t[j].owner != t[k].owner by {
            assert(t[j].owner == s[j].owner);
            assert(t[k].owner == s[k].owner);
        }
    }
    assert forall|b: Address| #[trigger]
        record_of(t, b) == if b == r.owner {
            Some(r)
        } else {
            record_of(s, b)
        } by {
        if b == r.owner {
            lemma_record_of_index(t, i);
        } else if exists|j: int| 0 <= j < s.len() && s[j].owner == b {
            let j = choose|j: int| 0 <= j < s.len() && s[j].owner == b;
            lemma_record_of_index(s, j);
            lemma_record_of_index(t, j);
        } else {
            lemma_record_of_absent(s, b);
            assert forall|j: int| 0 <= j < t.len() implies #[trigger] t[j].owner != b by {
                assert(t[j].owner == s[j].owner);
            }
            lemma_record_of_absent(t, b);
        }
    }
}

pub proof fn lemma_push(s: Seq<OwnershipRecord>, r: OwnershipRecord)
    ensures
        sum_balances(s.push(r)) == sum_balances(s) + r.balance,
        count_positive(s.push(r)) == count_positive(s) + if r.balance > 0 { 1nat } else { 0nat },
        forall|b: Address|
            #[trigger] record_of(s.push(r), b) == if b == r.owner {
                Some(r)
            } else {
                record_of(s, b)
            },
{
    assert(s.push(r).drop_last() =~= s);
}

pub proof fn lemma_sum_update(s: Seq<OwnershipRecord>, i: int, r: OwnershipRecord)
    requires
        0 <= i < s.len(),
    ensures
        sum_balances(s.update(i, r)) == sum_balances(s) - s[i].balance + r.balance,
        count_positive(s.update(i, r)) == count_positive(s) - (if s[i].balance > 0 {
            1int
        } else {
            0int
        }) + (if r.balance > 0 {
            1int
        } else {
            0int
        }),
    decreases s.len(),
{
    let t = s.update(i, r);
    if i == s.len() - 1 {
        assert(t.drop_last() =~= s.drop_last());
    } else {
        assert(t.drop_last() =~= s.drop_last().update(i, r));
        lemma_sum_update(s.drop_last(), i, r);
    }
}

/// In a holder set without negative balances no balance exceeds the sum.
pub proof fn lemma_balance_le_sum(s: Seq<OwnershipRecord>, i: int)
    requires
        holders_ok(s),
        0 <= i < s.len(),
    ensures
        0 <= s[i].balance <= sum_balances(s),
    decreases s.len(),
{
    lemma_sum_nonneg(s.drop_last());
    if i != s.len() - 1 {
        let d = s.drop_last();
        assert(d[i] == s[i]);
        lemma_balance_le_sum(d, i);
    } else {
        assert(s[i] == s.last());
        assert(s.last().balance >= 0);
    }
}

pub proof fn lemma_sum_nonneg(s: Seq<OwnershipRecord>)
    requires
        forall|i: int| 0 <= i < s.len() ==> #[trigger] s[i].balance >= 0,
    ensures
        sum_balances(s) >= 0,
    decreases s.len(),
{
    if s.len() > 0 {
        let d = s.drop_last();
        assert forall|i: int| 0 <= i < d.len() implies #[trigger] d[i].balance >= 0 by {
            assert(d[i] == s[i]);
        }
        lemma_sum_nonneg(d);
        assert(s[s.len() - 1].balance >= 0);
    }
}

pub proof fn lemma_count_le_len(s: Seq<OwnershipRecord>)
    ensures
        count_positive(s) <= s.len(),
    decreases s.len(),
{
    if s.len() > 0 {
        lemma_count_le_len(s.drop_last());
    }
}

/// The position of `a`'s record in the holder set.
pub fn find_holder(holders: &Vec<OwnershipRecord>, a: Address) -> (r: Option<usize>)
    ensures
        match r {
            Some(i) => i < holders@.len() && holders@[i as int].owner == a,
            None => forall|i: int| 0 <= i < holders@.len() ==> #[trigger] holders@[i].owner != a,
        },
{
    let mut i: usize = 0;
    while i < holders.len()
        invariant
            i <= holders@.len(),
            forall|j: int| 0 <= j < i ==> #[trigger] holders@[j].owner != a,
        decreases holders@.len() - i,
    {
        if holders[i].owner == a {
            return Some(i);
        }
        i = i + 1;
    }
    None
}

/// The balance of `a`, zero when it holds no record.
pub fn holder_balance(holders: &Vec<OwnershipRecord>, a: Address) -> (r: i128)
    requires
        holders_ok(holders@),
    ensures
        r == balance_in(holders@, a),
        r >= 0,
{
    match find_holder(holders, a) {
        Some(i) => {
            proof {
                lemma_record_of_index(holders@, i as int);
            }
            holders[i].balance
        },
        None => {
            proof {
                lemma_record_of_absent(holders@, a);
            }
            0
        },
    }
}

/// The unclaimed dividends of `a`, zero when it holds no record.
pub fn holder_unclaimed(holders: &Vec<OwnershipRecord>, a: Address) -> (r: i128)
    requires
        holders_ok(holders@),
    ensures
        r == unclaimed_in(holders@, a),
        r >= 0,
{
    match find_holder(holders, a) {
        Some(i) => {
            proof {
                lemma_record_of_index(holders@, i as int);
                assert(holders@[i as int].balance >= 0);
            }
            holders[i].unclaimed_dividends
        },
        None => {
            proof {
                lemma_record_of_absent(holders@, a);
            }
            0
        },
    }
}

/// Adds `amount` to the balance of `a`, appending a record for a new holder.
pub fn credit(holders: &mut Vec<OwnershipRecord>, a: Address, amount: i128)
    requires
        holders_ok(old(holders)@),
        amount >= 0,
        sum_balances(old(holders)@) + amount <= i128::MAX,
    ensures
        holders_ok(final(holders)@),
        sum_balances(final(holders)@) == sum_balances(old(holders)@) + amount,
        count_positive(final(holders)@) == count_positive(old(holders)@) - (if balance_in(
            old(holders)@,
            a,
        ) > 0 {
            1int
        } else {
            0int
        }) + (if balance_in(old(holders)@, a) + amount > 0 {
            1int
        } else {
            0int
        }),
        forall|b: Address| #[trigger]
            balance_in(final(holders)@, b) == balance_in(old(holders)@, b) + if b == a {
                amount as int
            } else {
                0int
            },
        forall|b: Address| #[trigger]
            unclaimed_in(final(holders)@, b) == unclaimed_in(old(holders)@, b),
        old(holders)@.len() <= final(holders)@.len(),
        forall|i: int|
            0 <= i < old(holders)@.len() ==> #[trigger] final(holders)@[i].owner == old(holders)@[i].owner,
        forall|i: int|
            old(holders)@.len() <= i < final(holders)@.len() ==> #[trigger] final(holders)@[i].owner == a,
{
    let ghost s = holders@;
    match find_holder(holders, a) {
        Some(i) => {
            proof {
                lemma_balance_le_sum(s, i as int);
                lemma_record_of_index(s, i as int);
            }
            let rec = holders[i];
            let new_rec = OwnershipRecord { balance: rec.balance + amount, ..rec };
            holders.set(i, new_rec);
            proof {
                lemma_sum_update(s, i as int, new_rec);
                lemma_record_of_update(s, i as int, new_rec);
                let t = holders@;
                assert(t == s.update(i as int, new_rec));
                assert forall|j: int| 0 <= j < t.len() implies #[trigger] t[j].balance >= 0
                    && t[j].unclaimed_dividends >= 0 by {
                    if j != i {
                        assert(t[j] == s[j]);
                    }
                }
            }
        },
        None => {
            let new_rec = OwnershipRecord { owner: a, balance: amount, unclaimed_dividends: 0 };
            proof {
                lemma_record_of_absent(s, a);
                lemma_push(s, new_rec);
            }
            holders.push(new_rec);
            proof {
                let t = holders@;
                assert(t == s.push(new_rec));
                assert forall|j: int, k: int| 0 <= j < k < t.len() implies t[j].owner
                    != t[k].owner by {
                    if k == s.len() {
                        assert(s[j].owner != a);
                    }
                }
                assert forall|j: int| 0 <= j < t.len() implies #[trigger] t[j].balance >= 0
                    && t[j].unclaimed_dividends >= 0 by {
                    if j < s.len() {
                        assert(t[j] == s[j]);
                    }
                }
            }
        },
    }
}

/// Takes `amount` from the balance of `a`, which must cover it. A record that
/// reaches zero stays in the set.
pub fn debit(holders: &mut Vec<OwnershipRecord>, a: Address, amount: i128)
    requires
        holders_ok(old(holders)@),
        amount >= 0,
        balance_in(old(holders)@, a) >= amount,
    ensures
        holders_ok(final(holders)@),
        sum_balances(final(holders)@) == sum_balances(old(holders)@) - amount,
        count_positive(final(holders)@) == count_positive(old(holders)@) - (if balance_in(
            old(holders)@,
            a,
        ) > 0 {
            1int
        } else {
            0int
        }) + (if balance_in(old(holders)@, a) - amount > 0 {
            1int
        } else {
            0int
        }),
        forall|b: Address| #[trigger]
            balance_in(final(holders)@, b) == balance_in(old(holders)@, b) - if b == a {
                amount as int
            } else {
                0int
            },
        forall|b: Address| #[trigger]
            unclaimed_in(final(holders)@, b) == unclaimed_in(old(holders)@, b),
        final(holders)@.len() == old(holders)@.len(),
        forall|i: int|
            0 <= i < old(holders)@.len() ==> #[trigger] final(holders)@[i].owner == old(holders)@[i].owner,
{
    let ghost s = holders@;
    match find_holder(holders, a) {
        Some(i) => {
            proof {
                lemma_record_of_index(s, i as int);
            }
            let rec = holders[i];
            let new_rec = OwnershipRecord { balance: rec.balance - amount, ..rec };
            holders.set(i, new_rec);
            proof {
                lemma_sum_update(s, i as int, new_rec);
                lemma_record_of_update(s, i as int, new_rec);
                let t = holders@;
                assert(t == s.update(i as int, new_rec));
                assert forall|j: int| 0 <= j < t.len() implies #[trigger] t[j].balance >= 0
                    && t[j].unclaimed_dividends >= 0 by {
                    if j != i {
                        assert(t[j] == s[j]);
                    }
                }
            }
        },
        None => {
            proof {
                lemma_record_of_absent(s, a);
                assert(amount == 0);
            }
        },
    }
}

} // verus!
