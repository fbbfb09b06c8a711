//! Paid subscriptions to the platform. Payment is collected by the caller before
//! a subscription is created; the service keeps the records and their periods,
//! measured in ledger sequence numbers.
use vstd::prelude::*;
use std::collections::HashMap;
use crate::error::Error;
use crate::types::{Address, PlanType, SubscriptionStatus};

verus! {

broadcast use vstd::std_specs::hash::group_hash_axioms;

/// Ledgers closed per day, at one ledger every five seconds.
pub const LEDGERS_PER_DAY: u32 = 17280;

#[derive(Clone, Copy, Debug, PartialEq, Eq, Structural)]
pub struct Subscription {
    pub id: u64,
    pub user: Address,
    pub plan: PlanType,
    pub status: SubscriptionStatus,
    /// Ledger sequence number at which the subscription started.
    pub start_date: u32,
    /// Ledger sequence number at which the subscription is due to end.
    pub end_date: u32,
    pub payment_token: Address,
}

/// Subscriptions keyed by id.
pub struct SubscriptionService {
    pub subscriptions: HashMap<u64, Subscription>,
}

/// `x` capped at the largest `u32`.
pub open spec fn cap_u32(x: int) -> u32 {
    if x > u32::MAX {
        u32::MAX
    } else {
        x as u32
    }
}

impl SubscriptionService {
    /// A service without subscriptions.
    pub fn new() -> (r: SubscriptionService)
        ensures
            r.subscriptions@.is_empty(),
    {
        SubscriptionService { subscriptions: HashMap::new() }
    }

    /// Records a paid subscription of `duration_days` days starting at ledger
    /// `current_ledger`; the end saturates at the largest sequence number.
    pub fn create_subscription(
        &mut self,
        id: u64,
        user: Address,
        plan: PlanType,
        payment_token: Address,
        duration_days: u32,
        current_ledger: u32,
    ) -> (r: Result<Subscription, Error>)
        ensures
            old(self).subscriptions@.contains_key(id) <==> r is Err,
            r is Err ==> r == Err::<Subscription, Error>(Error::SubscriptionAlreadyExists)
                && final(self).subscriptions@ == old(self).subscriptions@,
            r is Ok ==> {
                let s = r->Ok_0;
                &&& s == Subscription {
                    id,
                    user,
                    plan,
                    status: SubscriptionStatus::Active,
                    start_date: current_ledger,
                    end_date: cap_u32(
                        current_ledger + cap_u32(duration_days * LEDGERS_PER_DAY) as int,
                    ),
                    payment_token,
                }
                &&& final(self).subscriptions@ == old(self).subscriptions@.insert(id, s)
            },
    {
        if self.subscriptions.contains_key(&id) {
            return Err(Error::SubscriptionAlreadyExists);
        }
        let duration = if duration_days > u32::MAX / LEDGERS_PER_DAY {
            u32::MAX
        } else {
            duration_days * LEDGERS_PER_DAY
        };
        let end = if current_ledger > u32::MAX - duration {
            u32::MAX
        } else {
            current_ledger + duration
        };
        let s = Subscription {
            id,
            user,
            plan,
            status: SubscriptionStatus::Active,
            start_date: current_ledger,
            end_date: end,
            payment_token,
        };
        self.subscriptions.insert(id, s);
        Ok(s)
    }

    /// Cancels an active subscription, ending it at ledger `current_ledger`, and
    /// returns it as stored.
    pub fn cancel_subscription(&mut self, id: u64, current_ledger: u32) -> (r: Result<Subscription, Error>)
        ensures
            r == if !old(self).subscriptions@.contains_key(id) {
                Err::<Subscription, Error>(Error::SubscriptionNotFound)
            } else if old(self).subscriptions@[id].status != SubscriptionStatus::Active {
                Err(Error::SubscriptionNotActive)
            } else {
                Ok(
                    Subscription {
                        status: SubscriptionStatus::Cancelled,
                        end_date: current_ledger,
                        ..old(self).subscriptions@[id]
                    },
                )
            },
            r is Ok ==> final(self).subscriptions@ == old(self).subscriptions@.insert(id, r->Ok_0),
            r is Err ==> final(self).subscriptions@ == old(self).subscriptions@,
    {
        let s = match self.subscriptions.get(&id) {
            Some(s) => *s,
            None => return Err(Error::SubscriptionNotFound),
        };
        if s.status != SubscriptionStatus::Active {
            return Err(Error::SubscriptionNotActive);
        }
        let cancelled = Subscription {
            status: SubscriptionStatus::Cancelled,
            end_date: current_ledger,
            ..s
        };
        self.subscriptions.insert(id, cancelled);
        Ok(cancelled)
    }

    /// The subscription stored under `id`.
    pub fn get_subscription(&self, id: u64) -> (r: Result<Subscription, Error>)
        ensures
            r == if self.subscriptions@.contains_key(id) {
                Ok::<Subscription, Error>(self.subscriptions@[id])
            } else {
                Err(Error::SubscriptionNotFound)
            },
    {
        match self.subscriptions.get(&id) {
            Some(s) => Ok(*s),
            None => Err(Error::SubscriptionNotFound),
        }
    }
}

} // verus!
