//! The detokenization state machine: a proposal slot per asset that goes from
//! Active to Executed or Rejected. Execution removes every trace of the asset's
//! tokens in one step.
use vstd::prelude::*;
use crate::error::Error;
use crate::types::{
    ActiveProposal, Address, AssetUpContract, DetokenizationProposal, ExecutedProposal,
    RejectedProposal,
};
use crate::voting::passes;

verus! {

broadcast use vstd::std_specs::hash::group_hash_axioms;

impl AssetUpContract {
    /// Whether the proposal slot of `asset_id` holds an active proposal.
    pub open spec fn proposal_active(&self, asset_id: u64) -> bool {
        self.proposals@.contains_key(asset_id) && self.proposals@[asset_id] is Active
    }
}

/// The outcome that `execute_detokenization` owes.
pub open spec fn execute_check(c: &AssetUpContract, asset_id: u64, proposal_id: u64) -> Result<
    (),
    Error,
> {
    if !c.is_tokenized(asset_id) {
        Err(Error::AssetNotTokenized)
    } else if !c.proposal_active(asset_id) || c.proposals@[asset_id]->Active_0.proposal_id
        != proposal_id {
        Err(Error::InvalidProposal)
    } else if c.book(asset_id).threshold_overflows() {
        Err(Error::ArithmeticOverflow)
    } else if !c.book(asset_id).passes(proposal_id) {
        Err(Error::DetokenizationNotApproved)
    } else {
        Ok(())
    }
}

/// Opens a detokenization proposal for `asset_id`, whose id is the asset id. At
/// most one proposal of an asset is active at a time.
pub fn propose_detokenization(
    c: &mut AssetUpContract,
    asset_id: u64,
    proposer: Address,
    now: u64,
) -> (r: Result<u64, Error>)
    requires
        old(c).wf(),
    ensures
        final(c).wf(),
        r == if !old(c).is_tokenized(asset_id) {
            Err::<u64, Error>(Error::AssetNotTokenized)
        } else if old(c).proposal_active(asset_id) {
            Err(Error::DetokenizationAlreadyProposed)
        } else {
            Ok(asset_id)
        },
        r is Ok ==> final(c).books@ == old(c).books@ && final(c).proposals@ == old(
            c,
        ).proposals@.insert(
            asset_id,
            DetokenizationProposal::Active(
                ActiveProposal { proposal_id: asset_id, proposer, created_at: now },
            ),
        ),
        r is Err ==> final(c).same_as(old(c)),
{
    if !c.books.contains_key(&asset_id) {
        return Err(Error::AssetNotTokenized);
    }
    if let Some(DetokenizationProposal::Active(_)) = c.proposals.get(&asset_id) {
        return Err(Error::DetokenizationAlreadyProposed);
    }
    let proposal = DetokenizationProposal::Active(
        ActiveProposal { proposal_id: asset_id, proposer, created_at: now },
    );
    c.proposals.insert(asset_id, proposal);
    Ok(asset_id)
}

/// Executes the active proposal `proposal_id` of `asset_id` once its votes pass:
/// the proposal becomes Executed and the asset's record, metadata, holder set,
/// balances, locks, dividends, restriction, whitelist and votes are all deleted.
/// On any failure nothing changes.
pub fn execute_detokenization(
    c: &mut AssetUpContract,
    asset_id: u64,
    proposal_id: u64,
    now: u64,
) -> (r: Result<(), Error>)
    requires
        old(c).wf(),
    ensures
        final(c).wf(),
        r == execute_check(old(c), asset_id, proposal_id),
        r is Ok ==> {
            &&& !final(c).is_tokenized(asset_id)
            &&& final(c).books@ == old(c).books@.remove(asset_id)
            &&& final(c).proposals@ == old(c).proposals@.insert(
                asset_id,
                DetokenizationProposal::Executed(ExecutedProposal { proposal_id, executed_at: now }),
            )
            &&& !final(c).proposal_active(asset_id)
        },
        r is Err ==> final(c).same_as(old(c)),
{
    let book = match c.books.get(&asset_id) {
        Some(b) => b,
        None => return Err(Error::AssetNotTokenized),
    };
    match c.proposals.get(&asset_id) {
        Some(DetokenizationProposal::Active(p)) => {
            if p.proposal_id != proposal_id {
                return Err(Error::InvalidProposal);
            }
        },
        _ => return Err(Error::InvalidProposal),
    }
    match passes(book, proposal_id) {
        Ok(true) => {},
        Ok(false) => return Err(Error::DetokenizationNotApproved),
        Err(e) => return Err(e),
    }
    c.books.remove(&asset_id);
    c.proposals.insert(
        asset_id,
        DetokenizationProposal::Executed(ExecutedProposal { proposal_id, executed_at: now }),
    );
    Ok(())
}

/// Rejects the active proposal of `asset_id` and forgets its votes; the asset
/// stays tokenized and a new proposal may follow.
pub fn reject_detokenization(c: &mut AssetUpContract, asset_id: u64, now: u64) -> (r: Result<
    (),
    Error,
>)
    requires
        old(c).wf(),
    ensures
        final(c).wf(),
        r == if !old(c).is_tokenized(asset_id) {
            Err::<(), Error>(Error::AssetNotTokenized)
        } else if !old(c).proposal_active(asset_id) {
            Err(Error::InvalidProposal)
        } else {
            Ok(())
        },
        r is Ok ==> {
            let pid = old(c).proposals@[asset_id]->Active_0.proposal_id;
            let ob = old(c).book(asset_id);
            let b = final(c).book(asset_id);
            &&& final(c).books@ == old(c).books@.insert(asset_id, b)
            &&& final(c).proposals@ == old(c).proposals@.insert(
                asset_id,
                DetokenizationProposal::Rejected(RejectedProposal { proposal_id: pid, rejected_at: now }),
            )
            &&& b.votes@ == ob.votes@.remove(pid)
            &&& b.asset == ob.asset && b.holders == ob.holders && b.locks == ob.locks
            &&& forall|x: Address| #[trigger] b.balance(x) == ob.balance(x)
            &&& forall|x: Address| #[trigger] b.unclaimed(x) == ob.unclaimed(x)
            &&& b.restriction == ob.restriction && b.whitelist == ob.whitelist
            &&& b.metadata == ob.metadata
        },
        r is Err ==> final(c).same_as(old(c)),
{
    if !c.books.contains_key(&asset_id) {
        return Err(Error::AssetNotTokenized);
    }
    let pid = match c.proposals.get(&asset_id) {
        Some(DetokenizationProposal::Active(p)) => p.proposal_id,
        _ => return Err(Error::InvalidProposal),
    };
    let mut book = match c.books.remove(&asset_id) {
        Some(b) => b,
        None => return Err(Error::AssetNotTokenized),
    };
    book.votes.remove(&pid);
    c.books.insert(asset_id, book);
    c.proposals.insert(
        asset_id,
        DetokenizationProposal::Rejected(RejectedProposal { proposal_id: pid, rejected_at: now }),
    );
    proof {
        assert(c.books@ =~= old(c).books@.insert(asset_id, book));
    }
    Ok(())
}

/// The proposal slot of `asset_id`; `InvalidProposal` when no proposal was ever made.
pub fn get_detokenization_proposal(c: &AssetUpContract, asset_id: u64) -> (r: Result<
    DetokenizationProposal,
    Error,
>)
    ensures
        r == if c.proposals@.contains_key(asset_id) {
            Ok::<DetokenizationProposal, Error>(c.proposals@[asset_id])
        } else {
            Err(Error::InvalidProposal)
        },
{
    match c.proposals.get(&asset_id) {
        Some(p) => Ok(*p),
        None => Err(Error::InvalidProposal),
    }
}

/// Whether a detokenization proposal of `asset_id` is active; never an error.
pub fn is_detokenization_active(c: &AssetUpContract, asset_id: u64) -> (r: Result<bool, Error>)
    ensures
        r == Ok::<bool, Error>(c.proposal_active(asset_id)),
{
    match c.proposals.get(&asset_id) {
        Some(DetokenizationProposal::Active(_)) => Ok(true),
        _ => Ok(false),
    }
}

} // verus!
