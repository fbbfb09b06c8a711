//! The transfer gate of an asset: an optional restriction and a whitelist of
//! principals admitted as recipients.
use vstd::prelude::*;
use crate::error::Error;
use crate::tokenization::{contains_address, permits};
use crate::types::{Address, AssetBook, AssetUpContract, TransferRestriction};

verus! {

broadcast use vstd::std_specs::hash::group_hash_axioms;

/// The whitelist after adding `a`: unchanged when `a` is already on it.
pub open spec fn whitelist_add(w: Seq<Address>, a: Address) -> Seq<Address> {
    if w.contains(a) {
        w
    } else {
        w.push(a)
    }
}

/// The whitelist after removing `a`, the others kept in order.
pub open spec fn whitelist_remove(w: Seq<Address>, a: Address) -> Seq<Address> {
    w.filter(|x: Address| x != a)
}

/// Adding a principal that is already on the whitelist changes nothing, so
/// adding the same principal twice leaves the whitelist as one addition does,
/// and of the same length.
pub proof fn lemma_whitelist_add_idempotent(w: Seq<Address>, a: Address)
    ensures
        whitelist_add(whitelist_add(w, a), a) == whitelist_add(w, a),
        whitelist_add(whitelist_add(w, a), a).len() == whitelist_add(w, a).len(),
        whitelist_add(w, a).contains(a),
{
    if !w.contains(a) {
        assert(w.push(a)[w.len() as int] == a);
    }
}

/// `book` with its gate replaced by `restriction` and `whitelist`, all else kept.
pub open spec fn gate_changed(
    b: AssetBook,
    ob: AssetBook,
    restriction: Option<TransferRestriction>,
    whitelist: Seq<Address>,
) -> bool {
    &&& b.asset == ob.asset && b.holders == ob.holders && b.locks == ob.locks
    &&& forall|x: Address| #[trigger] b.balance(x) == ob.balance(x)
    &&& forall|x: Address| #[trigger] b.unclaimed(x) == ob.unclaimed(x)
    &&& b.votes == ob.votes && b.metadata == ob.metadata
    &&& b.restriction == restriction && b.whitelist@ == whitelist
}

/// Sets (or replaces) the transfer restriction of `asset_id`.
pub fn set_transfer_restriction(
    c: &mut AssetUpContract,
    asset_id: u64,
    restriction: TransferRestriction,
) -> (r: Result<(), Error>)
    requires
        old(c).wf(),
    ensures
        final(c).wf(),
        r is Ok <==> old(c).is_tokenized(asset_id),
        r is Err ==> r == Err::<(), Error>(Error::AssetNotTokenized) && final(c).same_as(old(c)),
        r is Ok ==> {
            let ob = old(c).book(asset_id);
            let b = final(c).book(asset_id);
            &&& final(c).with_book(old(c), asset_id, b)
            &&& gate_changed(b, ob, Some(restriction), ob.whitelist@)
        },
{
    let mut book = match c.books.remove(&asset_id) {
        Some(b) => b,
        None => {
            proof {
                assert(c.books@ =~= old(c).books@);
            }
            return Err(Error::AssetNotTokenized);
        },
    };
    book.restriction = Some(restriction);
    c.books.insert(asset_id, book);
    proof {
        assert(c.books@ =~= old(c).books@.insert(asset_id, book));
    }
    Ok(())
}

/// The transfer restriction of `asset_id`; `AssetNotFound` when none is set.
pub fn get_transfer_restriction(c: &AssetUpContract, asset_id: u64) -> (r: Result<
    &TransferRestriction,
    Error,
>)
    ensures
        !c.is_tokenized(asset_id) ==> r == Err::<&TransferRestriction, Error>(
            Error::AssetNotTokenized,
        ),
        c.is_tokenized(asset_id) ==> match c.book(asset_id).restriction {
            Some(x) => r == Ok::<&TransferRestriction, Error>(&x),
            None => r == Err::<&TransferRestriction, Error>(Error::AssetNotFound),
        },
{
    match c.books.get(&asset_id) {
        Some(book) => match &book.restriction {
            Some(x) => Ok(x),
            None => Err(Error::AssetNotFound),
        },
        None => Err(Error::AssetNotTokenized),
    }
}

/// Whether a transfer restriction is set on `asset_id`.
pub fn has_transfer_restrictions(c: &AssetUpContract, asset_id: u64) -> (r: Result<bool, Error>)
    ensures
        r == if c.is_tokenized(asset_id) {
            Ok::<bool, Error>(c.book(asset_id).restriction is Some)
        } else {
            Err(Error::AssetNotTokenized)
        },
{
    match c.books.get(&asset_id) {
        Some(book) => Ok(book.restriction.is_some()),
        None => Err(Error::AssetNotTokenized),
    }
}

/// Puts `a` on the whitelist of `asset_id`; a principal already on it is no error.
pub fn add_to_whitelist(c: &mut AssetUpContract, asset_id: u64, a: Address) -> (r: Result<
    (),
    Error,
>)
    requires
        old(c).wf(),
    ensures
        final(c).wf(),
        r is Ok <==> old(c).is_tokenized(asset_id),
        r is Err ==> r == Err::<(), Error>(Error::AssetNotTokenized) && final(c).same_as(old(c)),
        r is Ok ==> {
            let ob = old(c).book(asset_id);
            let b = final(c).book(asset_id);
            &&& final(c).with_book(old(c), asset_id, b)
            &&& gate_changed(b, ob, ob.restriction, whitelist_add(ob.whitelist@, a))
        },
{
    let mut book = match c.books.remove(&asset_id) {
        Some(b) => b,
        None => {
            proof {
                assert(c.books@ =~= old(c).books@);
            }
            return Err(Error::AssetNotTokenized);
        },
    };
    if !contains_address(&book.whitelist, a) {
        book.whitelist.push(a);
    }
    c.books.insert(asset_id, book);
    proof {
        assert(c.books@ =~= old(c).books@.insert(asset_id, book));
    }
    Ok(())
}

/// Takes `a` off the whitelist of `asset_id`; a principal not on it is no error.
pub fn remove_from_whitelist(c: &mut AssetUpContract, asset_id: u64, a: Address) -> (r: Result<
    (),
    Error,
>)
    requires
        old(c).wf(),
    ensures
        final(c).wf(),
        r is Ok <==> old(c).is_tokenized(asset_id),
        r is Err ==> r == Err::<(), Error>(Error::AssetNotTokenized) && final(c).same_as(old(c)),
        r is Ok ==> {
            let ob = old(c).book(asset_id);
            let b = final(c).book(asset_id);
            &&& final(c).with_book(old(c), asset_id, b)
            &&& gate_changed(b, ob, ob.restriction, whitelist_remove(ob.whitelist@, a))
        },
{
    let mut book = match c.books.remove(&asset_id) {
        Some(b) => b,
        None => {
            proof {
                assert(c.books@ =~= old(c).books@);
            }
            return Err(Error::AssetNotTokenized);
        },
    };
    let mut kept: Vec<Address> = Vec::new();
    let mut i: usize = 0;
    while i < book.whitelist.len()
        invariant
            i <= book.whitelist@.len(),
            kept@ == whitelist_remove(book.whitelist@.subrange(0, i as int), a),
        decreases book.whitelist@.len() - i,
    {
        let x = book.whitelist[i];
        proof {
            let s = book.whitelist@.subrange(0, i as int + 1);
            assert(s.drop_last() =~= book.whitelist@.subrange(0, i as int));
            assert(s.last() == x);
            reveal(Seq::filter);
        }
        if x != a {
            kept.push(x);
        }
        i = i + 1;
    }
    proof {
        assert(book.whitelist@.subrange(0, i as int) =~= book.whitelist@);
    }
    book.whitelist = kept;
    c.books.insert(asset_id, book);
    proof {
        assert(c.books@ =~= old(c).books@.insert(asset_id, book));
    }
    Ok(())
}

/// Whether `a` is on the whitelist of `asset_id`.
pub fn is_whitelisted(c: &AssetUpContract, asset_id: u64, a: Address) -> (r: Result<bool, Error>)
    ensures
        r == if c.is_tokenized(asset_id) {
            Ok::<bool, Error>(c.book(asset_id).whitelist@.contains(a))
        } else {
            Err(Error::AssetNotTokenized)
        },
{
    match c.books.get(&asset_id) {
        Some(book) => Ok(contains_address(&book.whitelist, a)),
        None => Err(Error::AssetNotTokenized),
    }
}

/// The whitelist of `asset_id`, in order of addition; empty for an asset that is
/// not tokenized.
pub fn get_whitelist(c: &AssetUpContract, asset_id: u64) -> (r: Result<Vec<Address>, Error>)
    ensures
        r is Ok,
        !c.is_tokenized(asset_id) ==> r->Ok_0@.len() == 0,
        c.is_tokenized(asset_id) ==> r->Ok_0@ == c.book(asset_id).whitelist@,
{
    let mut out: Vec<Address> = Vec::new();
    if let Some(book) = c.books.get(&asset_id) {
        let mut i: usize = 0;
        while i < book.whitelist.len()
            invariant
                i <= book.whitelist@.len(),
                out@ == book.whitelist@.subrange(0, i as int),
            decreases book.whitelist@.len() - i,
        {
            out.push(book.whitelist[i]);
            proof {
                assert(out@ =~= book.whitelist@.subrange(0, i as int + 1));
            }
            i = i + 1;
        }
        proof {
            assert(out@ =~= book.whitelist@);
        }
    }
    Ok(out)
}

/// Whether the transfer gate of `asset_id` admits `to` as a recipient (locks and
/// balances are not consulted).
pub fn validate_transfer(c: &AssetUpContract, asset_id: u64, from: Address, to: Address) -> (r:
    Result<bool, Error>)
    ensures
        r == if c.is_tokenized(asset_id) {
            Ok::<bool, Error>(c.book(asset_id).permits(to))
        } else {
            Err(Error::AssetNotTokenized)
        },
{
    match c.books.get(&asset_id) {
        Some(book) => Ok(permits(book, to)),
        None => Err(Error::AssetNotTokenized),
    }
}

} // verus!
