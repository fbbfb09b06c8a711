//! Well-formedness of the contract state and the views that contracts use.
use vstd::prelude::*;
use std::collections::HashMap;
use crate::ledger::{
    balance_in, count_positive, holders_ok, lemma_count_le_len, lemma_record_of_found,
    sum_balances, unclaimed_in,
};
use crate::types::{Address, AssetBook, AssetUpContract, OwnershipRecord, TokenizedAsset};

verus! {

broadcast use vstd::std_specs::hash::group_hash_axioms;

impl AssetBook {
    /// The invariant of one asset's state: the balances are non-negative and sum
    /// to the supply, which is all in circulation, the holder count counts the
    /// positive balances, and the detokenization threshold is a percentage.
    pub open spec fn wf(&self) -> bool {
        &&& holders_ok(self.holders@)
        &&& sum_balances(self.holders@) == self.asset.total_supply
        &&& self.asset.tokens_in_circulation == self.asset.total_supply
        &&& self.asset.token_holders_count == count_positive(self.holders@)
        &&& self.asset.detokenization_required_threshold <= 100
    }

    pub open spec fn balance(&self, a: Address) -> int {
        balance_in(self.holders@, a)
    }

    pub open spec fn unclaimed(&self, a: Address) -> int {
        unclaimed_in(self.holders@, a)
    }

    /// Whether `a`'s tokens are frozen at time `now`: a lock exists and has not expired.
    pub open spec fn locked_at(&self, a: Address, now: u64) -> bool {
        self.locks@.contains_key(a.id) && self.locks@[a.id] > now
    }

    /// Whether the transfer gate lets `to` receive tokens.
    pub open spec fn permits(&self, to: Address) -> bool {
        match self.restriction {
            None => true,
            Some(r) => !r.require_accredited || self.whitelist@.contains(to),
        }
    }
}

impl AssetUpContract {
    /// Every stored book is well formed and filed under its own asset id.
    pub open spec fn wf(&self) -> bool {
        forall|id: u64| #[trigger]
            self.books@.contains_key(id) ==> self.books@[id].wf() && self.books@[id].asset.asset_id
                == id
    }

    pub open spec fn is_tokenized(&self, asset_id: u64) -> bool {
        self.books@.contains_key(asset_id)
    }

    pub open spec fn book(&self, asset_id: u64) -> AssetBook {
        self.books@[asset_id]
    }

    /// The two states hold the same data.
    pub open spec fn same_as(&self, other: &AssetUpContract) -> bool {
        self.books@ == other.books@ && self.proposals@ == other.proposals@
    }

    /// `self` is `other` with the book of `asset_id` replaced by `book`.
    pub open spec fn with_book(&self, other: &AssetUpContract, asset_id: u64, book: AssetBook) -> bool {
        self.books@ == other.books@.insert(asset_id, book) && self.proposals@ == other.proposals@
    }

    /// An empty contract state.
    pub fn new() -> (r: AssetUpContract)
        ensures
            r.wf(),
            r.books@ == Map::<u64, AssetBook>::empty(),
            r.proposals@.is_empty(),
    {
        AssetUpContract { books: HashMap::new(), proposals: HashMap::new() }
    }
}

/// A prefix of a holder set without negative balances sums to no more than the
/// whole set.
proof fn lemma_prefix_sum_le(s: Seq<OwnershipRecord>, k: int)
    requires
        forall|i: int| 0 <= i < s.len() ==> #[trigger] s[i].balance >= 0,
        0 <= k <= s.len(),
    ensures
        sum_balances(s.subrange(0, k)) <= sum_balances(s),
    decreases s.len(),
{
    if k == s.len() {
        assert(s.subrange(0, k) =~= s);
    } else {
        let d = s.drop_last();
        assert forall|i: int| 0 <= i < d.len() implies #[trigger] d[i].balance >= 0 by {
            assert(d[i] == s[i]);
        }
        lemma_prefix_sum_le(d, k);
        assert(d.subrange(0, k) =~= s.subrange(0, k));
        assert(s[s.len() - 1].balance >= 0);
    }
}

impl AssetBook {
    /// Whether the book meets its invariant, checked record by record.
    pub fn is_well_formed(&self) -> (r: bool)
        ensures
            r == self.wf(),
    {
        if self.asset.detokenization_required_threshold > 100
            || self.asset.tokens_in_circulation != self.asset.total_supply {
            return false;
        }
        let ghost s = self.holders@;
        let mut sum: i128 = 0;
        let mut n: u64 = 0;
        let mut i: usize = 0;
        while i < self.holders.len()
            invariant
                s == self.holders@,
                i <= s.len(),
                forall|j: int|
                    0 <= j < i ==> #[trigger] s[j].balance >= 0 && s[j].unclaimed_dividends >= 0,
                forall|j: int, k: int| 0 <= j < k < i ==> s[j].owner != s[k].owner,
                sum == sum_balances(s.subrange(0, i as int)),
                n == count_positive(s.subrange(0, i as int)),
            decreases s.len() - i,
        {
            let rec = self.holders[i];
            if rec.balance < 0 || rec.unclaimed_dividends < 0 {
                return false;
            }
            let mut j: usize = 0;
            while j < i
                invariant
                    s == self.holders@,
                    j <= i < s.len(),
                    rec == s[i as int],
                    forall|k: int| 0 <= k < j ==> #[trigger] s[k].owner != rec.owner,
                decreases i - j,
            {
                if self.holders[j].owner == rec.owner {
                    return false;
                }
                j = j + 1;
            }
            let ghost prefix = s.subrange(0, i as int + 1);
            proof {
                assert(prefix.drop_last() =~= s.subrange(0, i as int));
                assert(prefix.last() == rec);
                lemma_count_le_len(s.subrange(0, i as int));
            }
            if sum > i128::MAX - rec.balance {
                proof {
                    if forall|k: int| 0 <= k < s.len() ==> #[trigger] s[k].balance >= 0 {
                        lemma_prefix_sum_le(s, i as int + 1);
                    }
                }
                return false;
            }
            sum = sum + rec.balance;
            if rec.balance > 0 {
                n = n + 1;
            }
            i = i + 1;
        }
        proof {
            assert(s.subrange(0, i as int) =~= s);
        }
        sum == self.asset.total_supply && n == self.asset.token_holders_count
    }
}

impl AssetUpContract {
    /// Puts a stored book back into the state if it is well formed and no book
    /// of its asset is present; returns whether it did.
    pub fn load_book(&mut self, book: AssetBook) -> (r: bool)
        requires
            old(self).wf(),
        ensures
            final(self).wf(),
            r == (book.wf() && !old(self).books@.contains_key(book.asset.asset_id)),
            r ==> final(self).books@ == old(self).books@.insert(book.asset.asset_id, book)
                && final(self).proposals@ == old(self).proposals@,
            !r ==> final(self).same_as(old(self)),
    {
        if !book.is_well_formed() || self.books.contains_key(&book.asset.asset_id) {
            return false;
        }
        self.books.insert(book.asset.asset_id, book);
        true
    }
}

/// Conservation: in every well-formed state, and so after any sequence of
/// mints, burns and transfers, the balances of each asset sum to its supply.
pub proof fn lemma_conservation(c: &AssetUpContract, asset_id: u64)
    requires
        c.wf(),
        c.is_tokenized(asset_id),
    ensures
        sum_balances(c.book(asset_id).holders@) == c.book(asset_id).asset.total_supply,
        c.book(asset_id).asset.tokens_in_circulation == c.book(asset_id).asset.total_supply,
{
}

/// Non-negativity: in every well-formed state no principal has a negative
/// balance or negative unclaimed dividends, nor is any supply negative.
pub proof fn lemma_non_negative(c: &AssetUpContract, asset_id: u64, a: Address)
    requires
        c.wf(),
        c.is_tokenized(asset_id),
    ensures
        c.book(asset_id).balance(a) >= 0,
        c.book(asset_id).unclaimed(a) >= 0,
        c.book(asset_id).asset.total_supply >= 0,
{
    let s = c.book(asset_id).holders@;
    lemma_record_of_found(s, a);
    crate::ledger::lemma_sum_nonneg(s);
}

/// A copy of an asset record.
pub fn copy_asset(a: &TokenizedAsset) -> (r: TokenizedAsset)
    ensures
        r == *a,
{
    TokenizedAsset { symbol: a.symbol.clone(), ..*a }
}

} // verus!
