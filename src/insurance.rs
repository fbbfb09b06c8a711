//! Insurance policies on assets and the claims filed against them. A policy
//! moves between Active, Suspended, Expired and Cancelled; a claim goes from
//! Submitted to Approved to Paid.
use vstd::prelude::*;
use std::collections::HashMap;
use crate::error::Error;
use crate::types::Address;

verus! {

broadcast use vstd::std_specs::hash::group_hash_axioms;

#[derive(Clone, Copy, Debug, PartialEq, Eq, Structural)]
pub enum PolicyStatus {
    Active,
    Expired,
    Cancelled,
    Suspended,
}

#[derive(Clone, Copy, Debug, PartialEq, Eq, Structural)]
pub enum ClaimStatus {
    Submitted,
    UnderReview,
    Approved,
    Rejected,
    Paid,
    Disputed,
}

#[derive(Clone, Copy, Debug, PartialEq, Eq, Structural)]
pub enum PolicyType {
    Comprehensive,
    Theft,
    Damage,
    Liability,
    BusinessInterruption,
}

#[derive(Clone, Copy, Debug, PartialEq, Eq, Structural)]
pub enum ClaimType {
    Theft,
    Damage,
    Loss,
    Liability,
    Other,
}

#[derive(Clone, Copy, Debug, PartialEq, Eq, Structural)]
pub struct InsurancePolicy {
    pub policy_id: u64,
    pub holder: Address,
    pub insurer: Address,
    pub asset_id: u64,
    pub policy_type: PolicyType,
    pub coverage_amount: i128,
    pub deductible: i128,
    pub premium: i128,
    pub start_date: u64,
    pub end_date: u64,
    pub status: PolicyStatus,
    pub auto_renew: bool,
    pub last_payment: u64,
}

#[derive(Clone, Copy, Debug, PartialEq, Eq, Structural)]
pub struct InsuranceClaim {
    pub claim_id: u64,
    pub policy_id: u64,
    pub asset_id: u64,
    pub claimant: Address,
    pub amount: i128,
    pub status: ClaimStatus,
    pub filed_at: u64,
    pub approved_amount: i128,
}

/// Policies and claims keyed by id, and the ids of each asset's policies in
/// order of creation.
pub struct InsuranceRegistry {
    pub policies: HashMap<u64, InsurancePolicy>,
    pub claims: HashMap<u64, InsuranceClaim>,
    pub asset_policies: HashMap<u64, Vec<u64>>,
}

impl InsuranceRegistry {
    /// The policy ids filed under `asset_id`: none when the asset has no policy.
    pub open spec fn policies_of(&self, asset_id: u64) -> Seq<u64> {
        if self.asset_policies@.contains_key(asset_id) {
            self.asset_policies@[asset_id]@
        } else {
            Seq::empty()
        }
    }

    /// `self` is `other` with `policy` stored under `id`.
    pub open spec fn with_policy(&self, other: &InsuranceRegistry, id: u64, policy: InsurancePolicy) -> bool {
        &&& self.policies@ == other.policies@.insert(id, policy)
        &&& self.claims@ == other.claims@
        &&& self.asset_policies@ == other.asset_policies@
    }

    /// The two registries hold the same data.
    pub open spec fn same_as(&self, other: &InsuranceRegistry) -> bool {
        &&& self.policies@ == other.policies@
        &&& self.claims@ == other.claims@
        &&& self.asset_policies@ == other.asset_policies@
    }

    /// An empty registry.
    pub fn new() -> (r: InsuranceRegistry)
        ensures
            r.policies@.is_empty(),
            r.claims@.is_empty(),
            r.asset_policies@.is_empty(),
    {
        InsuranceRegistry {
            policies: HashMap::new(),
            claims: HashMap::new(),
            asset_policies: HashMap::new(),
        }
    }
}

/// Whether a policy's figures are acceptable: positive coverage above the
/// deductible, and a period that ends after it starts.
pub open spec fn policy_terms_valid(p: InsurancePolicy) -> bool {
    p.coverage_amount > 0 && p.deductible < p.coverage_amount && p.start_date < p.end_date
}

/// Stores a new policy and files its id under its asset.
pub fn create_policy(reg: &mut InsuranceRegistry, policy: InsurancePolicy) -> (r: Result<(), Error>)
    ensures
        r == if !policy_terms_valid(policy) {
            Err::<(), Error>(Error::InvalidPayment)
        } else if old(reg).policies@.contains_key(policy.policy_id) {
            Err(Error::AssetAlreadyExists)
        } else {
            Ok(())
        },
        r is Ok ==> {
            &&& final(reg).policies@ == old(reg).policies@.insert(policy.policy_id, policy)
            &&& final(reg).claims@ == old(reg).claims@
            &&& final(reg).policies_of(policy.asset_id) == old(reg).policies_of(policy.asset_id).push(
                policy.policy_id,
            )
            &&& forall|a: u64| #![trigger final(reg).asset_policies@[a]]
                a != policy.asset_id ==> final(reg).policies_of(a) == old(reg).policies_of(a)
        },
        r is Err ==> final(reg).same_as(old(reg)),
{
    if policy.coverage_amount <= 0 || policy.deductible >= policy.coverage_amount
        || policy.start_date >= policy.end_date {
        return Err(Error::InvalidPayment);
    }
    if reg.policies.contains_key(&policy.policy_id) {
        return Err(Error::AssetAlreadyExists);
    }
    reg.policies.insert(policy.policy_id, policy);
    let mut ids = match reg.asset_policies.remove(&policy.asset_id) {
        Some(v) => v,
        None => Vec::new(),
    };
    ids.push(policy.policy_id);
    reg.asset_policies.insert(policy.asset_id, ids);
    proof {
        assert forall|a: u64| #![trigger reg.asset_policies@[a]]
            a != policy.asset_id implies reg.policies_of(a) == old(reg).policies_of(a) by {
            assert(reg.asset_policies@.contains_key(a) == old(reg).asset_policies@.contains_key(a));
        }
    }
    Ok(())
}

/// The outcome that a change of a policy's status owes: the policy must exist,
/// `allowed` must hold of the caller and `ready` of the policy.
pub open spec fn transition_check(
    reg: &InsuranceRegistry,
    policy_id: u64,
    allowed: bool,
    ready: bool,
) -> Result<(), Error> {
    if !reg.policies@.contains_key(policy_id) {
        Err(Error::AssetNotFound)
    } else if !allowed || !ready {
        Err(Error::Unauthorized)
    } else {
        Ok(())
    }
}

/// Whether a policy may still be cancelled or expired.
pub open spec fn in_force(p: InsurancePolicy) -> bool {
    p.status == PolicyStatus::Active || p.status == PolicyStatus::Suspended
}

/// Cancels an active or suspended policy at the request of its holder or insurer.
pub fn cancel_policy(reg: &mut InsuranceRegistry, policy_id: u64, caller: Address) -> (r: Result<
    (),
    Error,
>)
    ensures
        ({
            let p = old(reg).policies@[policy_id];
            &&& r == transition_check(
                old(reg),
                policy_id,
                caller == p.holder || caller == p.insurer,
                in_force(p),
            )
            &&& r is Ok ==> final(reg).with_policy(
                old(reg),
                policy_id,
                InsurancePolicy { status: PolicyStatus::Cancelled, ..p },
            )
        }),
        r is Err ==> final(reg).same_as(old(reg)),
{
    let p = match reg.policies.get(&policy_id) {
        Some(p) => *p,
        None => return Err(Error::AssetNotFound),
    };
    if !(caller == p.holder || caller == p.insurer) || !(p.status == PolicyStatus::Active
        || p.status == PolicyStatus::Suspended) {
        return Err(Error::Unauthorized);
    }
    reg.policies.insert(policy_id, InsurancePolicy { status: PolicyStatus::Cancelled, ..p });
    Ok(())
}

/// Suspends an active policy; only its insurer may.
pub fn suspend_policy(reg: &mut InsuranceRegistry, policy_id: u64, caller: Address) -> (r: Result<
    (),
    Error,
>)
    ensures
        ({
            let p = old(reg).policies@[policy_id];
            &&& r == transition_check(
                old(reg),
                policy_id,
                caller == p.insurer,
                p.status == PolicyStatus::Active,
            )
            &&& r is Ok ==> final(reg).with_policy(
                old(reg),
                policy_id,
                InsurancePolicy { status: PolicyStatus::Suspended, ..p },
            )
        }),
        r is Err ==> final(reg).same_as(old(reg)),
{
    let p = match reg.policies.get(&policy_id) {
        Some(p) => *p,
        None => return Err(Error::AssetNotFound),
    };
    if caller != p.insurer || p.status != PolicyStatus::Active {
        return Err(Error::Unauthorized);
    }
    reg.policies.insert(policy_id, InsurancePolicy { status: PolicyStatus::Suspended, ..p });
    Ok(())
}

/// Marks a policy expired once time `now` is past its end date; anyone may.
pub fn expire_policy(reg: &mut InsuranceRegistry, policy_id: u64, now: u64) -> (r: Result<
    (),
    Error,
>)
    ensures
        ({
            let p = old(reg).policies@[policy_id];
            &&& r == transition_check(old(reg), policy_id, true, in_force(p) && now > p.end_date)
            &&& r is Ok ==> final(reg).with_policy(
                old(reg),
                policy_id,
                InsurancePolicy { status: PolicyStatus::Expired, ..p },
            )
        }),
        r is Err ==> final(reg).same_as(old(reg)),
{
    let p = match reg.policies.get(&policy_id) {
        Some(p) => *p,
        None => return Err(Error::AssetNotFound),
    };
    if !(p.status == PolicyStatus::Active || p.status == PolicyStatus::Suspended) || now
        <= p.end_date {
        return Err(Error::Unauthorized);
    }
    reg.policies.insert(policy_id, InsurancePolicy { status: PolicyStatus::Expired, ..p });
    Ok(())
}

/// The policy after a renewal at time `now`.
pub open spec fn renewed(p: InsurancePolicy, new_end_date: u64, new_premium: i128, now: u64) -> InsurancePolicy {
    InsurancePolicy {
        end_date: new_end_date,
        premium: new_premium,
        status: PolicyStatus::Active,
        last_payment: now,
        ..p
    }
}

/// Renews an active or expired policy until `new_end_date` at `new_premium`;
/// only its insurer may. The new end must lie after both the start and `now`,
/// and the premium must be positive.
pub fn renew_policy(
    reg: &mut InsuranceRegistry,
    policy_id: u64,
    new_end_date: u64,
    new_premium: i128,
    caller: Address,
    now: u64,
) -> (r: Result<(), Error>)
    ensures
        ({
            let p = old(reg).policies@[policy_id];
            &&& r == if !old(reg).policies@.contains_key(policy_id) {
                Err::<(), Error>(Error::AssetNotFound)
            } else if caller != p.insurer || !(p.status == PolicyStatus::Active || p.status
                == PolicyStatus::Expired) {
                Err(Error::Unauthorized)
            } else if new_premium <= 0 || new_end_date <= now || new_end_date <= p.start_date {
                Err(Error::InvalidPayment)
            } else {
                Ok(())
            }
            &&& r is Ok ==> final(reg).with_policy(
                old(reg),
                policy_id,
                renewed(p, new_end_date, new_premium, now),
            )
        }),
        r is Err ==> final(reg).same_as(old(reg)),
{
    let p = match reg.policies.get(&policy_id) {
        Some(p) => *p,
        None => return Err(Error::AssetNotFound),
    };
    if caller != p.insurer || !(p.status == PolicyStatus::Active || p.status
        == PolicyStatus::Expired) {
        return Err(Error::Unauthorized);
    }
    if new_premium <= 0 || new_end_date <= now || new_end_date <= p.start_date {
        return Err(Error::InvalidPayment);
    }
    reg.policies.insert(
        policy_id,
        InsurancePolicy {
            end_date: new_end_date,
            premium: new_premium,
            status: PolicyStatus::Active,
            last_payment: now,
            ..p
        },
    );
    Ok(())
}

/// The policy stored under `policy_id`.
pub fn get_policy(reg: &InsuranceRegistry, policy_id: u64) -> (r: Option<InsurancePolicy>)
    ensures
        r == if reg.policies@.contains_key(policy_id) {
            Some(reg.policies@[policy_id])
        } else {
            None
        },
{
    match reg.policies.get(&policy_id) {
        Some(p) => Some(*p),
        None => None,
    }
}

/// The ids of the policies of `asset_id`, in order of creation.
pub fn get_asset_policies(reg: &InsuranceRegistry, asset_id: u64) -> (r: Vec<u64>)
    ensures
        r@ == reg.policies_of(asset_id),
{
    let mut out: Vec<u64> = Vec::new();
    if let Some(ids) = reg.asset_policies.get(&asset_id) {
        let mut i: usize = 0;
        while i < ids.len()
            invariant
                i <= ids@.len(),
                out@ == ids@.subrange(0, i as int),
            decreases ids@.len() - i,
        {
            out.push(ids[i]);
            proof {
                assert(out@ =~= ids@.subrange(0, i as int + 1));
            }
            i = i + 1;
        }
        proof {
            assert(out@ =~= ids@);
        }
    }
    out
}

/// Files a claim against an active policy.
pub fn file_claim(reg: &mut InsuranceRegistry, claim: InsuranceClaim) -> (r: Result<(), Error>)
    ensures
        r == if !old(reg).policies@.contains_key(claim.policy_id) {
            Err::<(), Error>(Error::AssetNotFound)
        } else if old(reg).policies@[claim.policy_id].status != PolicyStatus::Active {
            Err(Error::Unauthorized)
        } else if old(reg).claims@.contains_key(claim.claim_id) {
            Err(Error::AssetAlreadyExists)
        } else {
            Ok(())
        },
        r is Ok ==> final(reg).claims@ == old(reg).claims@.insert(claim.claim_id, claim)
            && final(reg).policies@ == old(reg).policies@ && final(reg).asset_policies@ == old(
            reg,
        ).asset_policies@,
        r is Err ==> final(reg).same_as(old(reg)),
{
    let p = match reg.policies.get(&claim.policy_id) {
        Some(p) => *p,
        None => return Err(Error::AssetNotFound),
    };
    if p.status != PolicyStatus::Active {
        return Err(Error::Unauthorized);
    }
    if reg.claims.contains_key(&claim.claim_id) {
        return Err(Error::AssetAlreadyExists);
    }
    reg.claims.insert(claim.claim_id, claim);
    Ok(())
}

/// Approves a claim in full: the approved amount becomes the amount claimed.
pub fn approve_claim(reg: &mut InsuranceRegistry, claim_id: u64, approver: Address) -> (r: Result<
    (),
    Error,
>)
    ensures
        r is Ok <==> old(reg).claims@.contains_key(claim_id),
        r is Err ==> r == Err::<(), Error>(Error::AssetNotFound) && final(reg).same_as(old(reg)),
        r is Ok ==> {
            let cl = old(reg).claims@[claim_id];
            &&& final(reg).claims@ == old(reg).claims@.insert(
                claim_id,
                InsuranceClaim { status: ClaimStatus::Approved, approved_amount: cl.amount, ..cl },
            )
            &&& final(reg).policies@ == old(reg).policies@
            &&& final(reg).asset_policies@ == old(reg).asset_policies@
        },
{
    let cl = match reg.claims.get(&claim_id) {
        Some(cl) => *cl,
        None => return Err(Error::AssetNotFound),
    };
    reg.claims.insert(
        claim_id,
        InsuranceClaim { status: ClaimStatus::Approved, approved_amount: cl.amount, ..cl },
    );
    Ok(())
}

/// Pays an approved claim.
pub fn pay_claim(reg: &mut InsuranceRegistry, claim_id: u64) -> (r: Result<(), Error>)
    ensures
        r == if !old(reg).claims@.contains_key(claim_id) {
            Err::<(), Error>(Error::AssetNotFound)
        } else if old(reg).claims@[claim_id].status != ClaimStatus::Approved {
            Err(Error::Unauthorized)
        } else {
            Ok(())
        },
        r is Ok ==> {
            let cl = old(reg).claims@[claim_id];
            &&& final(reg).claims@ == old(reg).claims@.insert(
                claim_id,
                InsuranceClaim { status: ClaimStatus::Paid, ..cl },
            )
            &&& final(reg).policies@ == old(reg).policies@
            &&& final(reg).asset_policies@ == old(reg).asset_policies@
        },
        r is Err ==> final(reg).same_as(old(reg)),
{
    let cl = match reg.claims.get(&claim_id) {
        Some(cl) => *cl,
        None => return Err(Error::AssetNotFound),
    };
    if cl.status != ClaimStatus::Approved {
        return Err(Error::Unauthorized);
    }
    reg.claims.insert(claim_id, InsuranceClaim { status: ClaimStatus::Paid, ..cl });
    Ok(())
}

/// The claim stored under `claim_id`.
pub fn get_claim(reg: &InsuranceRegistry, claim_id: u64) -> (r: Option<InsuranceClaim>)
    ensures
        r == if reg.claims@.contains_key(claim_id) {
            Some(reg.claims@[claim_id])
        } else {
            None
        },
{
    match reg.claims.get(&claim_id) {
        Some(cl) => Some(*cl),
        None => None,
    }
}

} // verus!
