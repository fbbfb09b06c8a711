//! Weighted governance votes, tallied per proposal id. A vote weighs the voter's
//! balance when it is cast; locked tokens count.
use vstd::prelude::*;
use crate::error::Error;
use crate::ledger::{find_holder, lemma_record_of_absent, lemma_record_of_index, record_of};
use crate::tokenization::contains_address;
use crate::types::{Address, AssetBook, AssetUpContract, OwnershipRecord, ProposalVotes};

verus! {

broadcast use vstd::std_specs::hash::group_hash_axioms;

impl AssetBook {
    /// The weight cast so far on proposal `pid`: zero before any vote.
    pub open spec fn tally(&self, pid: u64) -> int {
        if self.votes@.contains_key(pid) {
            self.votes@[pid].tally as int
        } else {
            0
        }
    }

    /// Whether `voter` has voted on proposal `pid`.
    pub open spec fn voted(&self, pid: u64, voter: Address) -> bool {
        self.votes@.contains_key(pid) && self.votes@[pid].voters@.contains(voter)
    }

    /// Whether proposal `pid` has more than the required percentage of the supply
    /// in favour.
    pub open spec fn passes(&self, pid: u64) -> bool {
        self.tally(pid) > self.asset.total_supply * self.asset.detokenization_required_threshold
            / 100
    }

    /// Whether the passing line of `passes` does not fit the integer type.
    pub open spec fn threshold_overflows(&self) -> bool {
        self.asset.total_supply * self.asset.detokenization_required_threshold > i128::MAX
    }
}

/// The outcome that `cast_vote` owes.
pub open spec fn vote_check(c: &AssetUpContract, asset_id: u64, pid: u64, voter: Address) -> Result<
    (),
    Error,
> {
    if !c.is_tokenized(asset_id) {
        Err(Error::AssetNotTokenized)
    } else if record_of(c.book(asset_id).holders@, voter) is None {
        Err(Error::HolderNotFound)
    } else if c.book(asset_id).balance(voter) < c.book(asset_id).asset.min_voting_threshold {
        Err(Error::InsufficientVotingPower)
    } else if c.book(asset_id).voted(pid, voter) {
        Err(Error::AlreadyVoted)
    } else if c.book(asset_id).tally(pid) + c.book(asset_id).balance(voter) > i128::MAX {
        Err(Error::ArithmeticOverflow)
    } else {
        Ok(())
    }
}

/// Records `voter`'s vote on proposal `pid` of `asset_id`, adding its current
/// balance to the tally. Other proposals are untouched.
pub fn cast_vote(c: &mut AssetUpContract, asset_id: u64, proposal_id: u64, voter: Address) -> (r:
    Result<(), Error>)
    requires
        old(c).wf(),
    ensures
        final(c).wf(),
        r == vote_check(old(c), asset_id, proposal_id, voter),
        r is Ok ==> {
            let ob = old(c).book(asset_id);
            let b = final(c).book(asset_id);
            &&& final(c).with_book(old(c), asset_id, b)
            &&& b.tally(proposal_id) == ob.tally(proposal_id) + ob.balance(voter)
            &&& forall|v: Address| #[trigger]
                b.voted(proposal_id, v) == (ob.voted(proposal_id, v) || v == voter)
            &&& forall|p: u64| #![trigger b.votes@[p]] p != proposal_id ==> b.tally(p) == ob.tally(p)
            &&& forall|p: u64, v: Address| #![trigger b.voted(p, v)]
                p != proposal_id ==> b.voted(p, v) == ob.voted(p, v)
            &&& b.asset == ob.asset && b.holders == ob.holders && b.locks == ob.locks
            &&& forall|x: Address| #[trigger] b.balance(x) == ob.balance(x)
            &&& forall|x: Address| #[trigger] b.unclaimed(x) == ob.unclaimed(x)
            &&& b.restriction == ob.restriction && b.whitelist == ob.whitelist
            &&& b.metadata == ob.metadata
        },
        r is Err ==> final(c).same_as(old(c)),
{
    let mut book = match c.books.remove(&asset_id) {
        Some(b) => b,
        None => {
            proof {
                assert(c.books@ =~= old(c).books@);
            }
            return Err(Error::AssetNotTokenized);
        },
    };
    let ghost ob = book;
    let balance = match find_holder(&book.holders, voter) {
        Some(i) => {
            proof {
                lemma_record_of_index(book.holders@, i as int);
            }
            book.holders[i].balance
        },
        None => {
            proof {
                lemma_record_of_absent(book.holders@, voter);
            }
            c.books.insert(asset_id, book);
            proof {
                assert(c.books@ =~= old(c).books@);
            }
            return Err(Error::HolderNotFound);
        },
    };
    let (tally, already) = match book.votes.get(&proposal_id) {
        Some(pv) => (pv.tally, contains_address(&pv.voters, voter)),
        None => (0, false),
    };
    let e = if balance < book.asset.min_voting_threshold {
        Some(Error::InsufficientVotingPower)
    } else if already {
        Some(Error::AlreadyVoted)
    } else if tally > i128::MAX - balance {
        Some(Error::ArithmeticOverflow)
    } else {
        None
    };
    if let Some(e) = e {
        c.books.insert(asset_id, book);
        proof {
            assert(c.books@ =~= old(c).books@);
        }
        return Err(e);
    }
    let mut pv = match book.votes.remove(&proposal_id) {
        Some(pv) => pv,
        None => ProposalVotes { tally: 0, voters: Vec::new() },
    };
    let ghost old_voters = pv.voters@;
    pv.tally = tally + balance;
    pv.voters.push(voter);
    book.votes.insert(proposal_id, pv);
    proof {
        assert(book.votes@ == ob.votes@.insert(proposal_id, pv));
        assert forall|v: Address| #[trigger]
            book.voted(proposal_id, v) == (ob.voted(proposal_id, v) || v == voter) by {
            assert(pv.voters@ == old_voters.push(voter));
            if v != voter && pv.voters@.contains(v) {
                let k = choose|k: int| 0 <= k < pv.voters@.len() && pv.voters@[k] == v;
                assert(old_voters[k] == v);
            }
            if old_voters.contains(v) {
                let k = choose|k: int| 0 <= k < old_voters.len() && old_voters[k] == v;
                assert(pv.voters@[k] == v);
            }
            assert(pv.voters@[old_voters.len() as int] == voter);
        }
    }
    c.books.insert(asset_id, book);
    proof {
        assert(c.books@ =~= old(c).books@.insert(asset_id, book));
    }
    Ok(())
}

/// The weight cast on proposal `pid` of `asset_id`: zero before any vote.
pub fn get_vote_tally(c: &AssetUpContract, asset_id: u64, proposal_id: u64) -> (r: Result<
    i128,
    Error,
>)
    ensures
        r == if c.is_tokenized(asset_id) {
            Ok::<i128, Error>(c.book(asset_id).tally(proposal_id) as i128)
        } else {
            Err(Error::AssetNotTokenized)
        },
{
    match c.books.get(&asset_id) {
        Some(book) => match book.votes.get(&proposal_id) {
            Some(pv) => Ok(pv.tally),
            None => Ok(0),
        },
        None => Err(Error::AssetNotTokenized),
    }
}

/// Whether `voter` has voted on proposal `pid` of `asset_id`.
pub fn has_voted(c: &AssetUpContract, asset_id: u64, proposal_id: u64, voter: Address) -> (r:
    Result<bool, Error>)
    ensures
        r == if c.is_tokenized(asset_id) {
            Ok::<bool, Error>(c.book(asset_id).voted(proposal_id, voter))
        } else {
            Err(Error::AssetNotTokenized)
        },
{
    match c.books.get(&asset_id) {
        Some(book) => match book.votes.get(&proposal_id) {
            Some(pv) => Ok(contains_address(&pv.voters, voter)),
            None => Ok(false),
        },
        None => Err(Error::AssetNotTokenized),
    }
}

/// Whether the weight cast on `pid` exceeds the asset's detokenization threshold,
/// a percentage of the supply rounded down; exactly the threshold does not pass.
pub fn proposal_passed(c: &AssetUpContract, asset_id: u64, proposal_id: u64) -> (r: Result<
    bool,
    Error,
>)
    requires
        c.wf(),
    ensures
        r == if !c.is_tokenized(asset_id) {
            Err::<bool, Error>(Error::AssetNotTokenized)
        } else if c.book(asset_id).threshold_overflows() {
            Err(Error::ArithmeticOverflow)
        } else {
            Ok(c.book(asset_id).passes(proposal_id))
        },
{
    let book = match c.books.get(&asset_id) {
        Some(b) => b,
        None => return Err(Error::AssetNotTokenized),
    };
    passes(book, proposal_id)
}

/// Whether proposal `pid` passes in `book`.
pub fn passes(book: &AssetBook, proposal_id: u64) -> (r: Result<bool, Error>)
    requires
        book.wf(),
    ensures
        r == if book.threshold_overflows() {
            Err::<bool, Error>(Error::ArithmeticOverflow)
        } else {
            Ok(book.passes(proposal_id))
        },
{
    let supply = book.asset.total_supply;
    let pct = book.asset.detokenization_required_threshold as i128;
    if pct != 0 && supply > i128::MAX / pct {
        proof {
            assert(supply * pct > i128::MAX) by (nonlinear_arith)
                requires
                    supply > i128::MAX / pct,
                    pct > 0,
            ;
        }
        return Err(Error::ArithmeticOverflow);
    }
    proof {
        crate::ledger::lemma_sum_nonneg(book.holders@);
        assert(0 <= supply * pct <= i128::MAX) by (nonlinear_arith)
            requires
                pct == 0 || supply <= i128::MAX / pct,
                0 <= pct <= 100,
                supply >= 0,
        ;
    }
    let line = supply * pct / 100;
    let tally = match book.votes.get(&proposal_id) {
        Some(pv) => pv.tally,
        None => 0,
    };
    Ok(tally > line)
}

/// The principals of a holder set, in its order.
pub open spec fn holder_owners(s: Seq<OwnershipRecord>) -> Seq<Address> {
    s.map_values(|h: OwnershipRecord| h.owner)
}

/// The holders that voted on `pid`, in the order of the holder set.
pub fn get_proposal_voters(c: &AssetUpContract, asset_id: u64, proposal_id: u64) -> (r: Result<
    Vec<Address>,
    Error,
>)
    ensures
        !c.is_tokenized(asset_id) ==> r == Err::<Vec<Address>, Error>(Error::AssetNotTokenized),
        c.is_tokenized(asset_id) ==> r is Ok && r->Ok_0@ == holder_owners(
            c.book(asset_id).holders@,
        ).filter(|a: Address| c.book(asset_id).voted(proposal_id, a)),
{
    let book = match c.books.get(&asset_id) {
        Some(b) => b,
        None => return Err(Error::AssetNotTokenized),
    };
    let ghost pred = |a: Address| book.voted(proposal_id, a);
    let mut out: Vec<Address> = Vec::new();
    let mut i: usize = 0;
    while i < book.holders.len()
        invariant
            i <= book.holders@.len(),
            pred == (|a: Address| book.voted(proposal_id, a)),
            out@ == holder_owners(book.holders@.subrange(0, i as int)).filter(pred),
        decreases book.holders@.len() - i,
    {
        let a = book.holders[i].owner;
        let voted = match book.votes.get(&proposal_id) {
            Some(pv) => contains_address(&pv.voters, a),
            None => false,
        };
        proof {
            let s = holder_owners(book.holders@.subrange(0, i as int + 1));
            assert(s.drop_last() =~= holder_owners(book.holders@.subrange(0, i as int)));
            assert(s.last() == a);
            assert(voted == pred(a));
            reveal(Seq::filter);
        }
        if voted {
            out.push(a);
        }
        i = i + 1;
    }
    proof {
        assert(book.holders@.subrange(0, i as int) =~= book.holders@);
    }
    Ok(out)
}

/// Forgets every vote cast on proposal `pid` of `asset_id`.
pub fn clear_proposal_votes(c: &mut AssetUpContract, asset_id: u64, proposal_id: u64) -> (r: Result<
    (),
    Error,
>)
    requires
        old(c).wf(),
    ensures
        final(c).wf(),
        r is Ok <==> old(c).is_tokenized(asset_id),
        r is Err ==> r == Err::<(), Error>(Error::AssetNotTokenized) && final(c).same_as(old(c)),
        r is Ok ==> {
            let ob = old(c).book(asset_id);
            let b = final(c).book(asset_id);
            &&& final(c).with_book(old(c), asset_id, b)
            &&& b.votes@ == ob.votes@.remove(proposal_id)
            &&& b.asset == ob.asset && b.holders == ob.holders && b.locks == ob.locks
            &&& forall|x: Address| #[trigger] b.balance(x) == ob.balance(x)
            &&& forall|x: Address| #[trigger] b.unclaimed(x) == ob.unclaimed(x)
            &&& b.restriction == ob.restriction && b.whitelist == ob.whitelist
            &&& b.metadata == ob.metadata
        },
{
    let mut book = match c.books.remove(&asset_id) {
        Some(b) => b,
        None => {
            proof {
                assert(c.books@ =~= old(c).books@);
            }
            return Err(Error::AssetNotTokenized);
        },
    };
    book.votes.remove(&proposal_id);
    c.books.insert(asset_id, book);
    proof {
        assert(c.books@ =~= old(c).books@.insert(asset_id, book));
    }
    Ok(())
}

} // verus!
