//! Proportional dividend accrual and claims. Distribution reads balances and
//! never changes them; the remainder of the integer division is not allocated.
use vstd::prelude::*;
use vstd::arithmetic::div_mod::{lemma_div_is_ordered, lemma_fundamental_div_mod};
use crate::error::Error;
use crate::ledger::{
    balance_in, count_positive, find_holder, holder_unclaimed, holders_ok, lemma_balance_le_sum,
    lemma_record_of_absent, lemma_record_of_index, lemma_record_of_update, lemma_sum_update,
    owners_unique, record_of, sum_balances,
};
use crate::types::{Address, AssetUpContract, OwnershipRecord, TokenizedAsset};

verus! {

broadcast use vstd::std_specs::hash::group_hash_axioms;

/// A holder's share of a distribution of `amount`: its balance times the amount
/// over the supply, rounded down.
pub open spec fn accrual(balance: int, amount: int, supply: int) -> int {
    if supply <= 0 {
        0
    } else {
        balance * amount / supply
    }
}

/// A record after a distribution of `amount` over `supply`.
pub open spec fn accrued(r: OwnershipRecord, amount: int, supply: int) -> OwnershipRecord {
    OwnershipRecord {
        unclaimed_dividends: (r.unclaimed_dividends + accrual(r.balance as int, amount, supply)) as i128,
        ..r
    }
}

/// The holder set after a distribution of `amount` over `supply`.
pub open spec fn distributed(s: Seq<OwnershipRecord>, amount: int, supply: int) -> Seq<
    OwnershipRecord,
> {
    s.map_values(|r: OwnershipRecord| accrued(r, amount, supply))
}

/// Sum of the accruals of a distribution of `amount` over `supply`.
pub open spec fn sum_accruals(s: Seq<OwnershipRecord>, amount: int, supply: int) -> int
    decreases s.len(),
{
    if s.len() == 0 {
        0
    } else {
        sum_accruals(s.drop_last(), amount, supply) + accrual(s.last().balance as int, amount, supply)
    }
}

/// Whether some holder's accrued dividends would exceed the integer type.
pub open spec fn accrual_overflows(s: Seq<OwnershipRecord>, amount: int, supply: int) -> bool {
    exists|i: int|
        0 <= i < s.len() && #[trigger] s[i].unclaimed_dividends + accrual(
            s[i].balance as int,
            amount,
            supply,
        ) > i128::MAX
}

/// The outcome that `distribute_dividends` owes.
pub open spec fn distribute_check(c: &AssetUpContract, asset_id: u64, amount: i128) -> Result<
    (),
    Error,
> {
    if !c.is_tokenized(asset_id) {
        Err(Error::AssetNotTokenized)
    } else if !c.book(asset_id).asset.revenue_sharing_enabled || amount <= 0 {
        Err(Error::InvalidDividendAmount)
    } else if c.book(asset_id).asset.total_supply * amount > i128::MAX || accrual_overflows(
        c.book(asset_id).holders@,
        amount as int,
        c.book(asset_id).asset.total_supply as int,
    ) {
        Err(Error::ArithmeticOverflow)
    } else {
        Ok(())
    }
}

/// A holder set with the same owners and balances as another, in the same order,
/// has the same sums, counts and balances.
pub proof fn lemma_same_balances(s: Seq<OwnershipRecord>, t: Seq<OwnershipRecord>)
    requires
        s.len() == t.len(),
        forall|i: int|
            0 <= i < s.len() ==> #[trigger] t[i].owner == s[i].owner && t[i].balance
                == s[i].balance,
    ensures
        sum_balances(t) == sum_balances(s),
        count_positive(t) == count_positive(s),
        owners_unique(s) ==> owners_unique(t),
        forall|a: Address| #[trigger] balance_in(t, a) == balance_in(s, a),
    decreases s.len(),
{
    if s.len() > 0 {
        let (ds, dt) = (s.drop_last(), t.drop_last());
        assert forall|i: int| 0 <= i < ds.len() implies #[trigger] dt[i].owner == ds[i].owner
            && dt[i].balance == ds[i].balance by {
            assert(dt[i] == t[i] && ds[i] == s[i]);
        }
        lemma_same_balances(ds, dt);
        assert(t.last() == t[t.len() - 1] && s.last() == s[s.len() - 1]);
        assert forall|a: Address| #[trigger] balance_in(t, a) == balance_in(s, a) by {
            assert(balance_in(dt, a) == balance_in(ds, a));
        }
    }
    if owners_unique(s) {
        assert forall|i: int, j: int| 0 <= i < j < t.len() implies t[i].owner != t[j].owner by {
            assert(t[i].owner == s[i].owner && t[j].owner == s[j].owner);
        }
    }
}

/// Each accrual is at most the holder's exact share, so the accruals of a
/// distribution over the whole supply add up to no more than the amount.
pub proof fn lemma_sum_accruals_scaled(s: Seq<OwnershipRecord>, amount: int, supply: int)
    requires
        forall|i: int| 0 <= i < s.len() ==> #[trigger] s[i].balance >= 0,
        amount >= 0,
        supply > 0,
    ensures
        sum_accruals(s, amount, supply) * supply <= sum_balances(s) * amount,
        sum_accruals(s, amount, supply) >= 0,
    decreases s.len(),
{
    if s.len() > 0 {
        let d = s.drop_last();
        assert forall|i: int| 0 <= i < d.len() implies #[trigger] d[i].balance >= 0 by {
            assert(d[i] == s[i]);
        }
        lemma_sum_accruals_scaled(d, amount, supply);
        let b = s.last().balance as int;
        assert(s.last() == s[s.len() - 1]);
        let x = b * amount;
        assert(x >= 0) by (nonlinear_arith)
            requires
                x == b * amount,
                b >= 0,
                amount >= 0,
        ;
        lemma_fundamental_div_mod(x, supply);
        let q = x / supply;
        assert(q >= 0) by {
            lemma_div_is_ordered(0, x, supply);
        }
        assert(q * supply <= x) by (nonlinear_arith)
            requires
                x == supply * q + (x % supply),
                x % supply >= 0,
        {
        }
        assert(x % supply >= 0) by {
            vstd::arithmetic::div_mod::lemma_mod_bound(x, supply);
        }
        let sa = sum_accruals(d, amount, supply);
        let sb = sum_balances(d);
        assert((sa + q) * supply <= (sb + b) * amount) by (nonlinear_arith)
            requires
                sa * supply <= sb * amount,
                q * supply <= b * amount,
        ;
    }
}

/// A distribution of `amount` over a holder set whose balances sum to the supply
/// gives out no more than `amount` in all.
pub proof fn lemma_distribution_bounded(s: Seq<OwnershipRecord>, amount: int)
    requires
        holders_ok(s),
        amount >= 0,
        sum_balances(s) > 0,
    ensures
        0 <= sum_accruals(s, amount, sum_balances(s)) <= amount,
{
    let supply = sum_balances(s);
    lemma_sum_accruals_scaled(s, amount, supply);
    let t = sum_accruals(s, amount, supply);
    assert(t <= amount) by (nonlinear_arith)
        requires
            t * supply <= supply * amount,
            supply > 0,
    ;
}

/// Sum of the unclaimed dividends of a sequence of records.
pub open spec fn sum_unclaimed(s: Seq<OwnershipRecord>) -> int
    decreases s.len(),
{
    if s.len() == 0 {
        0
    } else {
        sum_unclaimed(s.drop_last()) + s.last().unclaimed_dividends
    }
}

/// A distribution of `amount` raises the unclaimed dividends of the holder set
/// by exactly the sum of the accruals, and so (over the whole supply) by no more
/// than `amount`.
pub proof fn lemma_distribution_total(s: Seq<OwnershipRecord>, amount: int)
    requires
        holders_ok(s),
        amount >= 0,
        sum_balances(s) > 0,
        !accrual_overflows(s, amount, sum_balances(s)),
    ensures
        sum_unclaimed(distributed(s, amount, sum_balances(s))) == sum_unclaimed(s) + sum_accruals(
            s,
            amount,
            sum_balances(s),
        ),
        sum_unclaimed(distributed(s, amount, sum_balances(s))) <= sum_unclaimed(s) + amount,
{
    lemma_distributed_sum(s, amount, sum_balances(s));
    lemma_distribution_bounded(s, amount);
}

proof fn lemma_distributed_sum(s: Seq<OwnershipRecord>, amount: int, supply: int)
    requires
        amount >= 0,
        supply > 0,
        forall|i: int| 0 <= i < s.len() ==> #[trigger] s[i].balance >= 0,
        !accrual_overflows(s, amount, supply),
    ensures
        sum_unclaimed(distributed(s, amount, supply)) == sum_unclaimed(s) + sum_accruals(
            s,
            amount,
            supply,
        ),
    decreases s.len(),
{
    if s.len() > 0 {
        let d = s.drop_last();
        assert forall|i: int| 0 <= i < d.len() implies #[trigger] d[i].balance >= 0 by {
            assert(d[i] == s[i]);
        }
        assert(!accrual_overflows(d, amount, supply)) by {
            if accrual_overflows(d, amount, supply) {
                let i = choose|i: int|
                    0 <= i < d.len() && #[trigger] d[i].unclaimed_dividends + accrual(
                        d[i].balance as int,
                        amount,
                        supply,
                    ) > i128::MAX;
                assert(d[i] == s[i]);
            }
        }
        lemma_distributed_sum(d, amount, supply);
        let t = distributed(s, amount, supply);
        assert(t.drop_last() =~= distributed(d, amount, supply));
        let last = s.last();
        assert(last == s[s.len() - 1]);
        let b = last.balance as int;
        assert(b * amount >= 0) by (nonlinear_arith)
            requires
                b >= 0,
                amount >= 0,
        ;
        lemma_div_is_ordered(0, b * amount, supply);
        assert(last.unclaimed_dividends + accrual(b, amount, supply) <= i128::MAX);
        assert(t.last() == accrued(last, amount, supply));
    }
}

/// Credits every holder of `asset_id` with its share of `total_amount`: balance
/// times amount over supply, rounded down. Balances do not change.
pub fn distribute_dividends(c: &mut AssetUpContract, asset_id: u64, total_amount: i128) -> (r:
    Result<(), Error>)
    requires
        old(c).wf(),
    ensures
        final(c).wf(),
        r == distribute_check(old(c), asset_id, total_amount),
        r is Ok ==> {
            let ob = old(c).book(asset_id);
            let b = final(c).book(asset_id);
            &&& final(c).with_book(old(c), asset_id, b)
            &&& b.holders@ == distributed(
                ob.holders@,
                total_amount as int,
                ob.asset.total_supply as int,
            )
            &&& forall|x: Address| #[trigger] b.balance(x) == ob.balance(x)
            &&& b.asset == ob.asset && b.locks == ob.locks && b.restriction == ob.restriction
            &&& b.whitelist == ob.whitelist && b.votes == ob.votes && b.metadata == ob.metadata
        },
        r is Err ==> final(c).same_as(old(c)),
{
    let mut book = match c.books.remove(&asset_id) {
        Some(b) => b,
        None => {
            proof {
                assert(c.books@ =~= old(c).books@);
            }
            return Err(Error::AssetNotTokenized);
        },
    };
    let ghost ob = book;
    let supply = book.asset.total_supply;
    let e = if !book.asset.revenue_sharing_enabled || total_amount <= 0 {
        Some(Error::InvalidDividendAmount)
    } else if supply > i128::MAX / total_amount {
        proof {
            assert(supply * total_amount > i128::MAX) by (nonlinear_arith)
                requires
                    supply > i128::MAX / total_amount,
                    total_amount > 0,
            ;
        }
        Some(Error::ArithmeticOverflow)
    } else {
        proof {
            assert(supply * total_amount <= i128::MAX) by (nonlinear_arith)
                requires
                    supply <= i128::MAX / total_amount,
                    total_amount > 0,
            ;
        }
        None
    };
    if let Some(e) = e {
        c.books.insert(asset_id, book);
        proof {
            assert(c.books@ =~= old(c).books@);
        }
        return Err(e);
    }
    let ghost s = book.holders@;
    let mut updated: Vec<OwnershipRecord> = Vec::new();
    let mut i: usize = 0;
    while i < book.holders.len()
        invariant
            book == ob,
            old(c).wf(),
            old(c).books@.contains_key(asset_id),
            old(c).books@[asset_id] == ob,
            c.books@ == old(c).books@.remove(asset_id),
            c.proposals@ == old(c).proposals@,
            s == book.holders@,
            book.wf(),
            supply == book.asset.total_supply,
            total_amount > 0,
            book.asset.revenue_sharing_enabled,
            supply * total_amount <= i128::MAX,
            i <= s.len(),
            updated@ == distributed(s.subrange(0, i as int), total_amount as int, supply as int),
            forall|j: int|
                0 <= j < i ==> #[trigger] s[j].unclaimed_dividends + accrual(
                    s[j].balance as int,
                    total_amount as int,
                    supply as int,
                ) <= i128::MAX,
        decreases s.len() - i,
    {
        let rec = book.holders[i];
        proof {
            lemma_balance_le_sum(s, i as int);
            let b = rec.balance as int;
            let a = total_amount as int;
            assert(b * a <= supply * a) by (nonlinear_arith)
                requires
                    0 <= b <= supply,
                    a > 0,
            ;
            assert(b * a >= 0) by (nonlinear_arith)
                requires
                    b >= 0,
                    a > 0,
            ;
        }
        let share = if supply == 0 {
            0
        } else {
            rec.balance * total_amount / supply
        };
        proof {
            if supply > 0 {
                lemma_div_is_ordered(0, rec.balance * total_amount, supply as int);
            }
        }
        assert(share == accrual(rec.balance as int, total_amount as int, supply as int));
        assert(rec == s[i as int]);
        if rec.unclaimed_dividends > i128::MAX - share {
            c.books.insert(asset_id, book);
            proof {
                assert(c.books@ =~= old(c).books@);
                assert(accrual_overflows(s, total_amount as int, supply as int));
            }
            return Err(Error::ArithmeticOverflow);
        }
        let new_rec = OwnershipRecord { unclaimed_dividends: rec.unclaimed_dividends + share, ..rec };
        updated.push(new_rec);
        proof {
            assert(s.subrange(0, i as int + 1) =~= s.subrange(0, i as int).push(rec));
            assert(updated@ =~= distributed(
                s.subrange(0, i as int + 1),
                total_amount as int,
                supply as int,
            ));
        }
        i = i + 1;
    }
    proof {
        assert(s.subrange(0, i as int) =~= s);
        let t = updated@;
        assert forall|j: int| 0 <= j < s.len() implies #[trigger] t[j].owner == s[j].owner
            && t[j].balance == s[j].balance by {}
        lemma_same_balances(s, t);
        assert forall|j: int| 0 <= j < t.len() implies #[trigger] t[j].balance >= 0
            && t[j].unclaimed_dividends >= 0 by {
            assert(s[j].balance >= 0);
            if supply > 0 {
                lemma_div_is_ordered(0, s[j].balance * total_amount, supply as int);
            }
        }
        assert(!accrual_overflows(s, total_amount as int, supply as int));
    }
    book.holders = updated;
    c.books.insert(asset_id, book);
    proof {
        assert(c.books@ =~= old(c).books@.insert(asset_id, book));
    }
    Ok(())
}

/// The outcome that `claim_dividends` owes.
pub open spec fn claim_check(c: &AssetUpContract, asset_id: u64, holder: Address) -> Result<(), Error> {
    if !c.is_tokenized(asset_id) {
        Err(Error::AssetNotTokenized)
    } else if record_of(c.book(asset_id).holders@, holder) is None {
        Err(Error::HolderNotFound)
    } else if c.book(asset_id).unclaimed(holder) <= 0 {
        Err(Error::NoDividendsToClaim)
    } else {
        Ok(())
    }
}

/// Pays out `holder`'s unclaimed dividends: returns them and resets them to zero.
pub fn claim_dividends(c: &mut AssetUpContract, asset_id: u64, holder: Address) -> (r: Result<
    i128,
    Error,
>)
    requires
        old(c).wf(),
    ensures
        final(c).wf(),
        r is Ok <==> claim_check(old(c), asset_id, holder) is Ok,
        match r {
            Ok(amount) => {
                let ob = old(c).book(asset_id);
                let b = final(c).book(asset_id);
                &&& amount == ob.unclaimed(holder)
                &&& final(c).with_book(old(c), asset_id, b)
                &&& forall|x: Address| #[trigger]
                    b.unclaimed(x) == if x == holder {
                        0
                    } else {
                        ob.unclaimed(x)
                    }
                &&& forall|x: Address| #[trigger] b.balance(x) == ob.balance(x)
                &&& b.holders@.len() == ob.holders@.len()
                &&& b.asset == ob.asset && b.locks == ob.locks && b.restriction == ob.restriction
                &&& b.whitelist == ob.whitelist && b.votes == ob.votes && b.metadata == ob.metadata
            },
            Err(e) => Err::<(), Error>(e) == claim_check(old(c), asset_id, holder)
                && final(c).same_as(old(c)),
        },
{
    let mut book = match c.books.remove(&asset_id) {
        Some(b) => b,
        None => {
            proof {
                assert(c.books@ =~= old(c).books@);
            }
            return Err(Error::AssetNotTokenized);
        },
    };
    let ghost s = book.holders@;
    let i = match find_holder(&book.holders, holder) {
        Some(i) => i,
        None => {
            proof {
                lemma_record_of_absent(s, holder);
            }
            c.books.insert(asset_id, book);
            proof {
                assert(c.books@ =~= old(c).books@);
            }
            return Err(Error::HolderNotFound);
        },
    };
    proof {
        lemma_record_of_index(s, i as int);
    }
    let rec = book.holders[i];
    if rec.unclaimed_dividends <= 0 {
        c.books.insert(asset_id, book);
        proof {
            assert(c.books@ =~= old(c).books@);
        }
        return Err(Error::NoDividendsToClaim);
    }
    let new_rec = OwnershipRecord { unclaimed_dividends: 0, ..rec };
    book.holders.set(i, new_rec);
    proof {
        lemma_sum_update(s, i as int, new_rec);
        lemma_record_of_update(s, i as int, new_rec);
        let t = book.holders@;
        assert(t == s.update(i as int, new_rec));
        assert forall|j: int| 0 <= j < t.len() implies #[trigger] t[j].balance >= 0
            && t[j].unclaimed_dividends >= 0 by {
            if j != i {
                assert(t[j] == s[j]);
            }
        }
    }
    c.books.insert(asset_id, book);
    proof {
        assert(c.books@ =~= old(c).books@.insert(asset_id, book));
    }
    Ok(rec.unclaimed_dividends)
}

/// `holder`'s unclaimed dividends: zero for a principal without a record.
pub fn get_unclaimed_dividends(c: &AssetUpContract, asset_id: u64, holder: Address) -> (r: Result<
    i128,
    Error,
>)
    requires
        c.wf(),
    ensures
        r == if c.is_tokenized(asset_id) {
            Ok::<i128, Error>(c.book(asset_id).unclaimed(holder) as i128)
        } else {
            Err(Error::AssetNotTokenized)
        },
{
    match c.books.get(&asset_id) {
        Some(book) => Ok(holder_unclaimed(&book.holders, holder)),
        None => Err(Error::AssetNotTokenized),
    }
}

/// Sets the revenue-sharing switch of `asset_id` to `enabled`.
fn set_revenue_sharing(c: &mut AssetUpContract, asset_id: u64, enabled: bool) -> (r: Result<
    (),
    Error,
>)
    requires
        old(c).wf(),
    ensures
        final(c).wf(),
        r is Ok <==> old(c).is_tokenized(asset_id),
        r is Err ==> r == Err::<(), Error>(Error::AssetNotTokenized) && final(c).same_as(old(c)),
        r is Ok ==> {
            let ob = old(c).book(asset_id);
            let b = final(c).book(asset_id);
            &&& final(c).with_book(old(c), asset_id, b)
            &&& b.asset == (TokenizedAsset { revenue_sharing_enabled: enabled, ..ob.asset })
            &&& b.holders == ob.holders && b.locks == ob.locks && b.restriction == ob.restriction
            &&& forall|x: Address| #[trigger] b.balance(x) == ob.balance(x)
            &&& forall|x: Address| #[trigger] b.unclaimed(x) == ob.unclaimed(x)
            &&& b.whitelist == ob.whitelist && b.votes == ob.votes && b.metadata == ob.metadata
        },
{
    let mut book = match c.books.remove(&asset_id) {
        Some(b) => b,
        None => {
            proof {
                assert(c.books@ =~= old(c).books@);
            }
            return Err(Error::AssetNotTokenized);
        },
    };
    book.asset.revenue_sharing_enabled = enabled;
    c.books.insert(asset_id, book);
    proof {
        assert(c.books@ =~= old(c).books@.insert(asset_id, book));
    }
    Ok(())
}

/// Allows dividend distribution for `asset_id`.
pub fn enable_revenue_sharing(c: &mut AssetUpContract, asset_id: u64) -> (r: Result<(), Error>)
    requires
        old(c).wf(),
    ensures
        final(c).wf(),
        r is Ok <==> old(c).is_tokenized(asset_id),
        r is Err ==> r == Err::<(), Error>(Error::AssetNotTokenized) && final(c).same_as(old(c)),
        r is Ok ==> {
            let ob = old(c).book(asset_id);
            let b = final(c).book(asset_id);
            &&& final(c).with_book(old(c), asset_id, b)
            &&& b.asset == (TokenizedAsset { revenue_sharing_enabled: true, ..ob.asset })
            &&& b.holders == ob.holders && b.locks == ob.locks && b.restriction == ob.restriction
            &&& forall|x: Address| #[trigger] b.balance(x) == ob.balance(x)
            &&& forall|x: Address| #[trigger] b.unclaimed(x) == ob.unclaimed(x)
            &&& b.whitelist == ob.whitelist && b.votes == ob.votes && b.metadata == ob.metadata
        },
{
    set_revenue_sharing(c, asset_id, true)
}

/// Stops dividend distribution for `asset_id`.
pub fn disable_revenue_sharing(c: &mut AssetUpContract, asset_id: u64) -> (r: Result<(), Error>)
    requires
        old(c).wf(),
    ensures
        final(c).wf(),
        r is Ok <==> old(c).is_tokenized(asset_id),
        r is Err ==> r == Err::<(), Error>(Error::AssetNotTokenized) && final(c).same_as(old(c)),
        r is Ok ==> {
            let ob = old(c).book(asset_id);
            let b = final(c).book(asset_id);
            &&& final(c).with_book(old(c), asset_id, b)
            &&& b.asset == (TokenizedAsset { revenue_sharing_enabled: false, ..ob.asset })
            &&& b.holders == ob.holders && b.locks == ob.locks && b.restriction == ob.restriction
            &&& forall|x: Address| #[trigger] b.balance(x) == ob.balance(x)
            &&& forall|x: Address| #[trigger] b.unclaimed(x) == ob.unclaimed(x)
            &&& b.whitelist == ob.whitelist && b.votes == ob.votes && b.metadata == ob.metadata
        },
{
    set_revenue_sharing(c, asset_id, false)
}

} // verus!
