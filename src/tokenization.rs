//! Lifecycle of tokenized assets (tokenize, mint, burn, revalue), transfers
//! through the transfer gate, token locks and ownership queries.
use vstd::prelude::*;
use std::collections::HashMap;
use crate::error::Error;
use crate::ledger::{
    count_positive, credit, debit, holder_balance, holders_ok, lemma_count_le_len, record_of,
    lemma_sum_nonneg, sum_balances,
};
use crate::store::copy_asset;
use crate::types::{
    Address, AssetBook, AssetUpContract, OwnershipRecord, TokenMetadata, TokenizedAsset,
};

verus! {

broadcast use vstd::std_specs::hash::group_hash_axioms;

/// Share of the supply that a basis-point figure is out of.
pub const BASIS_POINTS: i128 = 10000;

/// Percentage of the supply whose votes a new asset needs to pass detokenization.
pub const DEFAULT_DETOKENIZATION_THRESHOLD: u32 = 50;

/// The outcome that `tokenize_asset` owes.
pub open spec fn tokenize_check(c: &AssetUpContract, asset_id: u64, total_supply: i128) -> Result<(), Error> {
    if c.is_tokenized(asset_id) {
        Err(Error::AssetAlreadyTokenized)
    } else if total_supply <= 0 {
        Err(Error::InvalidTokenSupply)
    } else {
        Ok(())
    }
}

/// Creates the fractional-asset record of `asset_id` and credits the whole supply
/// to the tokenizer, its only holder.
pub fn tokenize_asset(
    c: &mut AssetUpContract,
    asset_id: u64,
    symbol: String,
    total_supply: i128,
    decimals: u32,
    min_voting_threshold: i128,
    tokenizer: Address,
    metadata: TokenMetadata,
    now: u64,
) -> (r: Result<TokenizedAsset, Error>)
    requires
        old(c).wf(),
    ensures
        final(c).wf(),
        r.is_ok() == (tokenize_check(old(c), asset_id, total_supply) is Ok),
        match r {
            Ok(a) => {
                let b = final(c).book(asset_id);
                &&& final(c).with_book(old(c), asset_id, b)
                &&& b.asset == a && b.metadata == metadata
                &&& a.asset_id == asset_id && a.symbol == symbol && a.total_supply == total_supply
                &&& a.decimals == decimals && a.tokenizer == tokenizer
                &&& a.min_voting_threshold == min_voting_threshold
                &&& a.tokenization_timestamp == now && a.token_holders_count == 1
                &&& a.detokenization_required_threshold == DEFAULT_DETOKENIZATION_THRESHOLD
                &&& !a.revenue_sharing_enabled && a.locked_tokens == 0
                &&& b.holders@ == seq![
                    OwnershipRecord { owner: tokenizer, balance: total_supply, unclaimed_dividends: 0 },
                ]
                &&& forall|x: Address| #[trigger]
                    b.balance(x) == if x == tokenizer {
                        total_supply as int
                    } else {
                        0int
                    }
                &&& forall|x: Address| #[trigger] b.unclaimed(x) == 0
                &&& b.locks@.is_empty() && b.restriction is None && b.whitelist@.len() == 0
                &&& b.votes@.is_empty()
            },
            Err(e) => Err::<(), Error>(e) == tokenize_check(old(c), asset_id, total_supply)
                && final(c).same_as(old(c)),
        },
{
    if c.books.contains_key(&asset_id) {
        return Err(Error::AssetAlreadyTokenized);
    }
    if total_supply <= 0 {
        return Err(Error::InvalidTokenSupply);
    }
    let asset = TokenizedAsset {
        asset_id,
        symbol,
        total_supply,
        decimals,
        locked_tokens: 0,
        tokenizer,
        valuation: total_supply,
        tokenization_timestamp: now,
        tokens_in_circulation: total_supply,
        min_voting_threshold,
        detokenization_required_threshold: DEFAULT_DETOKENIZATION_THRESHOLD,
        revenue_sharing_enabled: false,
        token_holders_count: 1,
    };
    let mut holders: Vec<OwnershipRecord> = Vec::new();
    holders.push(OwnershipRecord { owner: tokenizer, balance: total_supply, unclaimed_dividends: 0 });
    let book = AssetBook {
        asset: copy_asset(&asset),
        metadata,
        holders,
        locks: HashMap::new(),
        restriction: None,
        whitelist: Vec::new(),
        votes: HashMap::new(),
    };
    proof {
        let h = book.holders@;
        assert(h.len() == 1);
        assert(h.drop_last() =~= Seq::<OwnershipRecord>::empty());
        assert(sum_balances(h.drop_last()) == 0);
        assert(count_positive(h.drop_last()) == 0);
        assert(sum_balances(h) == total_supply);
        assert(count_positive(h) == 1);
        assert(holders_ok(h));
        assert forall|x: Address| #[trigger] record_of(h, x) == if x == tokenizer {
            Some(h[0])
        } else {
            None::<OwnershipRecord>
        } by {
            assert(h.last() == h[0]);
            assert(record_of(h.drop_last(), x) == None::<OwnershipRecord>);
        }
    }
    c.books.insert(asset_id, book);
    Ok(asset)
}

/// The outcome that `mint_tokens` owes.
pub open spec fn mint_check(c: &AssetUpContract, asset_id: u64, amount: i128, caller: Address) -> Result<(), Error> {
    if !c.is_tokenized(asset_id) {
        Err(Error::AssetNotTokenized)
    } else if c.book(asset_id).asset.tokenizer != caller {
        Err(Error::Unauthorized)
    } else if amount <= 0 {
        Err(Error::InvalidTokenSupply)
    } else if c.book(asset_id).asset.total_supply + amount > i128::MAX {
        Err(Error::ArithmeticOverflow)
    } else {
        Ok(())
    }
}

/// Creates `amount` new tokens and credits them to the tokenizer, who alone may mint.
pub fn mint_tokens(c: &mut AssetUpContract, asset_id: u64, amount: i128, caller: Address) -> (r:
    Result<TokenizedAsset, Error>)
    requires
        old(c).wf(),
    ensures
        final(c).wf(),
        r.is_ok() == (mint_check(old(c), asset_id, amount, caller) is Ok),
        match r {
            Ok(a) => {
                let ob = old(c).book(asset_id);
                let b = final(c).book(asset_id);
                &&& final(c).with_book(old(c), asset_id, b)
                &&& b.asset == a
                &&& a == (TokenizedAsset {
                    total_supply: (ob.asset.total_supply + amount) as i128,
                    tokens_in_circulation: (ob.asset.total_supply + amount) as i128,
                    token_holders_count: a.token_holders_count,
                    ..ob.asset
                })
                &&& forall|x: Address| #[trigger]
                    b.balance(x) == ob.balance(x) + if x == caller {
                        amount as int
                    } else {
                        0int
                    }
                &&& forall|x: Address| #[trigger] b.unclaimed(x) == ob.unclaimed(x)
                &&& b.locks == ob.locks && b.restriction == ob.restriction
                &&& b.whitelist == ob.whitelist && b.votes == ob.votes && b.metadata == ob.metadata
            },
            Err(e) => Err::<(), Error>(e) == mint_check(old(c), asset_id, amount, caller)
                && final(c).same_as(old(c)),
        },
{
    let mut book = match c.books.remove(&asset_id) {
        Some(b) => b,
        None => {
            proof {
                assert(c.books@ =~= old(c).books@);
            }
            return Err(Error::AssetNotTokenized);
        },
    };
    let ghost ob = book;
    let ghost oc = c.books@;
    if book.asset.tokenizer != caller || amount <= 0 || book.asset.total_supply > i128::MAX
        - amount {
        let e = if book.asset.tokenizer != caller {
            Error::Unauthorized
        } else if amount <= 0 {
            Error::InvalidTokenSupply
        } else {
            Error::ArithmeticOverflow
        };
        c.books.insert(asset_id, book);
        proof {
            assert(c.books@ =~= old(c).books@);
        }
        return Err(e);
    }
    credit(&mut book.holders, caller, amount);
    book.asset.total_supply = book.asset.total_supply + amount;
    book.asset.tokens_in_circulation = book.asset.total_supply;
    proof {
        lemma_count_le_len(book.holders@);
    }
    book.asset.token_holders_count = positive_count(&book.holders);
    let a = copy_asset(&book.asset);
    c.books.insert(asset_id, book);
    proof {
        assert(c.books@ =~= old(c).books@.insert(asset_id, book));
    }
    Ok(a)
}

/// Counts the records with a positive balance.
pub fn positive_count(holders: &Vec<OwnershipRecord>) -> (r: u64)
    ensures
        r == count_positive(holders@),
{
    let mut n: u64 = 0;
    let mut i: usize = 0;
    while i < holders.len()
        invariant
            i <= holders@.len(),
            n == count_positive(holders@.subrange(0, i as int)),
        decreases holders@.len() - i,
    {
        proof {
            let s = holders@.subrange(0, i as int + 1);
            assert(s.drop_last() =~= holders@.subrange(0, i as int));
            lemma_count_le_len(holders@.subrange(0, i as int));
        }
        if holders[i].balance > 0 {
            n = n + 1;
        }
        i = i + 1;
    }
    proof {
        assert(holders@.subrange(0, i as int) =~= holders@);
    }
    n
}

/// The outcome that `burn_tokens` owes.
pub open spec fn burn_check(c: &AssetUpContract, asset_id: u64, amount: i128, caller: Address) -> Result<(), Error> {
    if !c.is_tokenized(asset_id) {
        Err(Error::AssetNotTokenized)
    } else if c.book(asset_id).asset.tokenizer != caller {
        Err(Error::Unauthorized)
    } else if amount <= 0 {
        Err(Error::InvalidTokenSupply)
    } else if c.book(asset_id).balance(caller) < amount {
        Err(Error::InsufficientBalance)
    } else {
        Ok(())
    }
}

/// Destroys `amount` tokens of the tokenizer, who alone may burn.
pub fn burn_tokens(c: &mut AssetUpContract, asset_id: u64, amount: i128, caller: Address) -> (r:
    Result<TokenizedAsset, Error>)
    requires
        old(c).wf(),
    ensures
        final(c).wf(),
        r.is_ok() == (burn_check(old(c), asset_id, amount, caller) is Ok),
        match r {
            Ok(a) => {
                let ob = old(c).book(asset_id);
                let b = final(c).book(asset_id);
                &&& final(c).with_book(old(c), asset_id, b)
                &&& b.asset == a
                &&& a == (TokenizedAsset {
                    total_supply: (ob.asset.total_supply - amount) as i128,
                    tokens_in_circulation: (ob.asset.total_supply - amount) as i128,
                    token_holders_count: a.token_holders_count,
                    ..ob.asset
                })
                &&& forall|x: Address| #[trigger]
                    b.balance(x) == ob.balance(x) - if x == caller {
                        amount as int
                    } else {
                        0int
                    }
                &&& forall|x: Address| #[trigger] b.unclaimed(x) == ob.unclaimed(x)
                &&& b.locks == ob.locks && b.restriction == ob.restriction
                &&& b.whitelist == ob.whitelist && b.votes == ob.votes && b.metadata == ob.metadata
            },
            Err(e) => Err::<(), Error>(e) == burn_check(old(c), asset_id, amount, caller)
                && final(c).same_as(old(c)),
        },
{
    let mut book = match c.books.remove(&asset_id) {
        Some(b) => b,
        None => {
            proof {
                assert(c.books@ =~= old(c).books@);
            }
            return Err(Error::AssetNotTokenized);
        },
    };
    let bal = holder_balance(&book.holders, caller);
    if book.asset.tokenizer != caller || amount <= 0 || bal < amount {
        let e = if book.asset.tokenizer != caller {
            Error::Unauthorized
        } else if amount <= 0 {
            Error::InvalidTokenSupply
        } else {
            Error::InsufficientBalance
        };
        c.books.insert(asset_id, book);
        proof {
            assert(c.books@ =~= old(c).books@);
        }
        return Err(e);
    }
    debit(&mut book.holders, caller, amount);
    proof {
        lemma_sum_nonneg(book.holders@);
    }
    book.asset.total_supply = book.asset.total_supply - amount;
    book.asset.tokens_in_circulation = book.asset.total_supply;
    book.asset.token_holders_count = positive_count(&book.holders);
    let a = copy_asset(&book.asset);
    c.books.insert(asset_id, book);
    proof {
        assert(c.books@ =~= old(c).books@.insert(asset_id, book));
    }
    Ok(a)
}

/// The outcome that `transfer_tokens` owes: the asset must exist, the sender's
/// tokens must not be locked, the transfer gate must admit the recipient, and the sender
/// must hold a positive amount at least as large as the one sent.
pub open spec fn transfer_check(
    c: &AssetUpContract,
    asset_id: u64,
    from: Address,
    to: Address,
    amount: i128,
    now: u64,
) -> Result<(), Error> {
    if !c.is_tokenized(asset_id) {
        Err(Error::AssetNotTokenized)
    } else if c.book(asset_id).locked_at(from, now) {
        Err(Error::TokensAreLocked)
    } else if !c.book(asset_id).permits(to) {
        Err(Error::TransferNotPermitted)
    } else if amount <= 0 {
        Err(Error::InvalidTokenSupply)
    } else if c.book(asset_id).balance(from) < amount {
        Err(Error::InsufficientBalance)
    } else {
        Ok(())
    }
}

/// Moves `amount` tokens from `from` to `to` at time `now`, creating the
/// recipient's record when it is new.
pub fn transfer_tokens(
    c: &mut AssetUpContract,
    asset_id: u64,
    from: Address,
    to: Address,
    amount: i128,
    now: u64,
) -> (r: Result<(), Error>)
    requires
        old(c).wf(),
    ensures
        final(c).wf(),
        r == transfer_check(old(c), asset_id, from, to, amount, now),
        r is Ok ==> {
            let ob = old(c).book(asset_id);
            let b = final(c).book(asset_id);
            &&& final(c).with_book(old(c), asset_id, b)
            &&& b.asset == (TokenizedAsset {
                token_holders_count: b.asset.token_holders_count,
                ..ob.asset
            })
            &&& forall|x: Address| #[trigger]
                b.balance(x) == ob.balance(x) - (if x == from {
                    amount as int
                } else {
                    0int
                }) + (if x == to {
                    amount as int
                } else {
                    0int
                })
            &&& forall|x: Address| #[trigger] b.unclaimed(x) == ob.unclaimed(x)
            &&& b.locks == ob.locks && b.restriction == ob.restriction
            &&& b.whitelist == ob.whitelist && b.votes == ob.votes && b.metadata == ob.metadata
        },
        r is Err ==> final(c).same_as(old(c)),
{
    let mut book = match c.books.remove(&asset_id) {
        Some(b) => b,
        None => {
            proof {
                assert(c.books@ =~= old(c).books@);
            }
            return Err(Error::AssetNotTokenized);
        },
    };
    let locked = is_locked_in(&book, from, now);
    let permitted = permits(&book, to);
    let bal = holder_balance(&book.holders, from);
    if locked || !permitted || amount <= 0 || bal < amount {
        let e = if locked {
            Error::TokensAreLocked
        } else if !permitted {
            Error::TransferNotPermitted
        } else if amount <= 0 {
            Error::InvalidTokenSupply
        } else {
            Error::InsufficientBalance
        };
        c.books.insert(asset_id, book);
        proof {
            assert(c.books@ =~= old(c).books@);
        }
        return Err(e);
    }
    debit(&mut book.holders, from, amount);
    credit(&mut book.holders, to, amount);
    book.asset.token_holders_count = positive_count(&book.holders);
    c.books.insert(asset_id, book);
    proof {
        assert(c.books@ =~= old(c).books@.insert(asset_id, book));
    }
    Ok(())
}

/// Whether `a`'s tokens in `book` are frozen at time `now`.
pub fn is_locked_in(book: &AssetBook, a: Address, now: u64) -> (r: bool)
    ensures
        r == book.locked_at(a, now),
{
    match book.locks.get(&a.id) {
        Some(until) => *until > now,
        None => false,
    }
}

/// Whether the transfer gate of `book` admits `to` as a recipient.
pub fn permits(book: &AssetBook, to: Address) -> (r: bool)
    ensures
        r == book.permits(to),
{
    match &book.restriction {
        None => true,
        Some(restriction) => !restriction.require_accredited || contains_address(
            &book.whitelist,
            to,
        ),
    }
}

/// Whether `v` holds `a`.
pub fn contains_address(v: &Vec<Address>, a: Address) -> (r: bool)
    ensures
        r == v@.contains(a),
{
    let mut i: usize = 0;
    while i < v.len()
        invariant
            i <= v@.len(),
            forall|j: int| 0 <= j < i ==> #[trigger] v@[j] != a,
        decreases v@.len() - i,
    {
        if v[i] == a {
            return true;
        }
        i = i + 1;
    }
    false
}

/// The outcome that `lock_tokens` owes.
pub open spec fn lock_check(c: &AssetUpContract, asset_id: u64, caller: Address) -> Result<(), Error> {
    if !c.is_tokenized(asset_id) {
        Err(Error::AssetNotTokenized)
    } else if c.book(asset_id).asset.tokenizer != caller {
        Err(Error::Unauthorized)
    } else {
        Ok(())
    }
}

/// Freezes `holder`'s tokens until `until`, replacing any earlier lock. Only the
/// tokenizer may lock.
pub fn lock_tokens(
    c: &mut AssetUpContract,
    asset_id: u64,
    holder: Address,
    until: u64,
    caller: Address,
) -> (r: Result<(), Error>)
    requires
        old(c).wf(),
    ensures
        final(c).wf(),
        r == lock_check(old(c), asset_id, caller),
        r is Ok ==> {
            let ob = old(c).book(asset_id);
            let b = final(c).book(asset_id);
            &&& final(c).with_book(old(c), asset_id, b)
            &&& b.locks@ == ob.locks@.insert(holder.id, until)
            &&& b.asset == ob.asset && b.holders == ob.holders && b.restriction == ob.restriction
            &&& forall|x: Address| #[trigger] b.balance(x) == ob.balance(x)
            &&& forall|x: Address| #[trigger] b.unclaimed(x) == ob.unclaimed(x)
            &&& b.whitelist == ob.whitelist && b.votes == ob.votes && b.metadata == ob.metadata
        },
        r is Err ==> final(c).same_as(old(c)),
{
    let mut book = match c.books.remove(&asset_id) {
        Some(b) => b,
        None => {
            proof {
                assert(c.books@ =~= old(c).books@);
            }
            return Err(Error::AssetNotTokenized);
        },
    };
    if book.asset.tokenizer != caller {
        c.books.insert(asset_id, book);
        proof {
            assert(c.books@ =~= old(c).books@);
        }
        return Err(Error::Unauthorized);
    }
    book.locks.insert(holder.id, until);
    c.books.insert(asset_id, book);
    proof {
        assert(c.books@ =~= old(c).books@.insert(asset_id, book));
    }
    Ok(())
}

/// Clears `holder`'s lock, whether or not it has expired.
pub fn unlock_tokens(c: &mut AssetUpContract, asset_id: u64, holder: Address) -> (r: Result<
    (),
    Error,
>)
    requires
        old(c).wf(),
    ensures
        final(c).wf(),
        r is Ok <==> old(c).is_tokenized(asset_id),
        r is Err ==> r == Err::<(), Error>(Error::AssetNotTokenized) && final(c).same_as(old(c)),
        r is Ok ==> {
            let ob = old(c).book(asset_id);
            let b = final(c).book(asset_id);
            &&& final(c).with_book(old(c), asset_id, b)
            &&& b.locks@ == ob.locks@.remove(holder.id)
            &&& b.asset == ob.asset && b.holders == ob.holders && b.restriction == ob.restriction
            &&& forall|x: Address| #[trigger] b.balance(x) == ob.balance(x)
            &&& forall|x: Address| #[trigger] b.unclaimed(x) == ob.unclaimed(x)
            &&& b.whitelist == ob.whitelist && b.votes == ob.votes && b.metadata == ob.metadata
        },
{
    let mut book = match c.books.remove(&asset_id) {
        Some(b) => b,
        None => {
            proof {
                assert(c.books@ =~= old(c).books@);
            }
            return Err(Error::AssetNotTokenized);
        },
    };
    book.locks.remove(&holder.id);
    c.books.insert(asset_id, book);
    proof {
        assert(c.books@ =~= old(c).books@.insert(asset_id, book));
    }
    Ok(())
}

/// Whether `holder`'s tokens are frozen at time `now`: a lock exists and its
/// expiry is still ahead. An expired lock reads as unlocked.
pub fn is_tokens_locked(c: &AssetUpContract, asset_id: u64, holder: Address, now: u64) -> (r: bool)
    ensures
        r == (c.is_tokenized(asset_id) && c.book(asset_id).locked_at(holder, now)),
{
    match c.books.get(&asset_id) {
        Some(book) => is_locked_in(book, holder, now),
        None => false,
    }
}

/// `holder`'s share of the supply in basis points, rounded down; zero while the
/// supply is zero.
pub open spec fn ownership_bps(b: AssetBook, holder: Address) -> int {
    if b.asset.total_supply == 0 {
        0
    } else {
        b.balance(holder) * BASIS_POINTS / b.asset.total_supply as int
    }
}

/// `holder`'s share of the supply in basis points (10000 is the whole supply).
pub fn calculate_ownership_percentage(c: &AssetUpContract, asset_id: u64, holder: Address) -> (r:
    Result<i128, Error>)
    requires
        c.wf(),
    ensures
        !c.is_tokenized(asset_id) ==> r == Err::<i128, Error>(Error::AssetNotTokenized),
        c.is_tokenized(asset_id) && c.book(asset_id).balance(holder) * BASIS_POINTS
            <= i128::MAX ==> r == Ok::<i128, Error>(ownership_bps(c.book(asset_id), holder) as i128),
        c.is_tokenized(asset_id) && c.book(asset_id).balance(holder) * BASIS_POINTS
            > i128::MAX ==> r == Err::<i128, Error>(Error::ArithmeticOverflow),
{
    let book = match c.books.get(&asset_id) {
        Some(b) => b,
        None => return Err(Error::AssetNotTokenized),
    };
    let bal = holder_balance(&book.holders, holder);
    if bal > i128::MAX / BASIS_POINTS {
        return Err(Error::ArithmeticOverflow);
    }
    let supply = book.asset.total_supply;
    if supply == 0 {
        return Ok(0);
    }
    proof {
        lemma_sum_nonneg(book.holders@);
    }
    Ok(bal * BASIS_POINTS / supply)
}

/// `holder`'s balance: zero for a principal that never held tokens.
pub fn get_token_balance(c: &AssetUpContract, asset_id: u64, holder: Address) -> (r: Result<
    i128,
    Error,
>)
    requires
        c.wf(),
    ensures
        r == if c.is_tokenized(asset_id) {
            Ok::<i128, Error>(c.book(asset_id).balance(holder) as i128)
        } else {
            Err::<i128, Error>(Error::AssetNotTokenized)
        },
{
    match c.books.get(&asset_id) {
        Some(book) => Ok(holder_balance(&book.holders, holder)),
        None => Err(Error::AssetNotTokenized),
    }
}

/// The principals of the holder set, in order of first credit; a holder whose
/// balance fell to zero stays in it.
pub fn get_token_holders(c: &AssetUpContract, asset_id: u64) -> (r: Result<Vec<Address>, Error>)
    ensures
        !c.is_tokenized(asset_id) ==> r == Err::<Vec<Address>, Error>(Error::AssetNotTokenized),
        c.is_tokenized(asset_id) ==> r is Ok && r->Ok_0@ == c.book(asset_id).holders@.map_values(
            |h: OwnershipRecord| h.owner,
        ),
{
    let book = match c.books.get(&asset_id) {
        Some(b) => b,
        None => return Err(Error::AssetNotTokenized),
    };
    let mut out: Vec<Address> = Vec::new();
    let mut i: usize = 0;
    while i < book.holders.len()
        invariant
            i <= book.holders@.len(),
            out@ == book.holders@.subrange(0, i as int).map_values(|h: OwnershipRecord| h.owner),
        decreases book.holders@.len() - i,
    {
        out.push(book.holders[i].owner);
        proof {
            assert(book.holders@.subrange(0, i as int + 1) =~= book.holders@.subrange(
                0,
                i as int,
            ).push(book.holders@[i as int]));
            assert(out@ =~= book.holders@.subrange(0, i as int + 1).map_values(
                |h: OwnershipRecord| h.owner,
            ));
        }
        i = i + 1;
    }
    proof {
        assert(book.holders@.subrange(0, i as int) =~= book.holders@);
    }
    Ok(out)
}

/// The fractional-asset record of `asset_id`.
pub fn get_tokenized_asset(c: &AssetUpContract, asset_id: u64) -> (r: Result<&TokenizedAsset, Error>)
    ensures
        !c.is_tokenized(asset_id) ==> r == Err::<&TokenizedAsset, Error>(Error::AssetNotTokenized),
        c.is_tokenized(asset_id) ==> r == Ok::<&TokenizedAsset, Error>(&c.book(asset_id).asset),
{
    match c.books.get(&asset_id) {
        Some(book) => Ok(&book.asset),
        None => Err(Error::AssetNotTokenized),
    }
}

/// The metadata stored with `asset_id`.
pub fn get_token_metadata(c: &AssetUpContract, asset_id: u64) -> (r: Result<&TokenMetadata, Error>)
    ensures
        !c.is_tokenized(asset_id) ==> r == Err::<&TokenMetadata, Error>(Error::AssetNotTokenized),
        c.is_tokenized(asset_id) ==> r == Ok::<&TokenMetadata, Error>(&c.book(asset_id).metadata),
{
    match c.books.get(&asset_id) {
        Some(book) => Ok(&book.metadata),
        None => Err(Error::AssetNotTokenized),
    }
}

/// Sets the valuation of `asset_id`, which must be positive.
pub fn update_valuation(c: &mut AssetUpContract, asset_id: u64, new_valuation: i128) -> (r: Result<
    (),
    Error,
>)
    requires
        old(c).wf(),
    ensures
        final(c).wf(),
        r == if !old(c).is_tokenized(asset_id) {
            Err::<(), Error>(Error::AssetNotTokenized)
        } else if new_valuation <= 0 {
            Err(Error::InvalidValuation)
        } else {
            Ok(())
        },
        r is Ok ==> {
            let ob = old(c).book(asset_id);
            let b = final(c).book(asset_id);
            &&& final(c).with_book(old(c), asset_id, b)
            &&& b.asset == (TokenizedAsset { valuation: new_valuation, ..ob.asset })
            &&& b.holders == ob.holders && b.locks == ob.locks && b.restriction == ob.restriction
            &&& forall|x: Address| #[trigger] b.balance(x) == ob.balance(x)
            &&& forall|x: Address| #[trigger] b.unclaimed(x) == ob.unclaimed(x)
            &&& b.whitelist == ob.whitelist && b.votes == ob.votes && b.metadata == ob.metadata
        },
        r is Err ==> final(c).same_as(old(c)),
{
    let mut book = match c.books.remove(&asset_id) {
        Some(b) => b,
        None => {
            proof {
                assert(c.books@ =~= old(c).books@);
            }
            return Err(Error::AssetNotTokenized);
        },
    };
    if new_valuation <= 0 {
        c.books.insert(asset_id, book);
        proof {
            assert(c.books@ =~= old(c).books@);
        }
        return Err(Error::InvalidValuation);
    }
    book.asset.valuation = new_valuation;
    c.books.insert(asset_id, book);
    proof {
        assert(c.books@ =~= old(c).books@.insert(asset_id, book));
    }
    Ok(())
}

} // verus!
