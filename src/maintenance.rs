//! Maintenance history of assets: records filed by registered providers,
//! service schedules, and per-asset statistics with a health score.
use vstd::prelude::*;
use std::collections::HashMap;
use crate::error::Error;
use crate::types::Address;

verus! {

broadcast use vstd::std_specs::hash::group_hash_axioms;

/// Seconds in a day.
pub const SECONDS_PER_DAY: u64 = 86400;

#[derive(Clone, Copy, Debug, PartialEq, Eq, Structural)]
pub enum MaintenanceType {
    Preventive,
    Corrective,
    Emergency,
    Inspection,
    Upgrade,
    Calibration,
}

#[derive(Clone, Copy, Debug, PartialEq, Eq, Structural)]
pub enum PriorityLevel {
    Low,
    Medium,
    High,
    Urgent,
}

/// One service of an asset. Conditions and quality are ratings from 1 to 10.
#[derive(Clone, Copy, Debug, PartialEq, Eq, Structural)]
pub struct MaintenanceRecord {
    pub record_id: u64,
    pub asset_id: u64,
    pub maintenance_type: MaintenanceType,
    pub provider: Address,
    pub service_date: u64,
    pub duration_hours: u32,
    pub labor_cost: i128,
    pub parts_cost: i128,
    pub total_cost: i128,
    pub condition_before: u32,
    pub condition_after: u32,
    pub quality_rating: u32,
    pub timestamp: u64,
}

/// The recurring service plan of an asset.
#[derive(Clone, Copy, Debug, PartialEq, Eq, Structural)]
pub struct ScheduledMaintenance {
    pub asset_id: u64,
    pub maintenance_type: MaintenanceType,
    pub frequency_days: u32,
    pub last_service_date: u64,
    pub next_service_due: u64,
    pub provider_assigned: Address,
    pub reminder_days: u32,
    pub auto_schedule: bool,
    pub priority: PriorityLevel,
    pub estimated_cost: i128,
    pub estimated_duration: u32,
}

/// Running totals of an asset's maintenance. The health score runs from 0 to 100.
#[derive(Clone, Copy, Debug, PartialEq, Eq, Structural)]
pub struct AssetStats {
    pub total_cost: i128,
    pub total_downtime_hours: u64,
    pub service_count: u32,
    pub health_score: u32,
}

/// A registered service provider; only an active one may file records.
#[derive(Clone, Debug, PartialEq, Eq)]
pub struct ProviderProfile {
    pub address: Address,
    pub name: String,
    pub specialization: Vec<String>,
    pub certification_details: String,
    pub total_services: u32,
    pub average_rating: u32,
    pub registration_timestamp: u64,
    pub is_active: bool,
    pub contact_hash: String,
    pub service_area: String,
}

/// Providers by principal id, and the histories,
/// schedules and statistics of assets by asset id.
pub struct AssetMaintenanceContract {
    pub providers: HashMap<u64, ProviderProfile>,
    pub history: HashMap<u64, Vec<MaintenanceRecord>>,
    pub schedules: HashMap<u64, ScheduledMaintenance>,
    pub stats: HashMap<u64, AssetStats>,
}

/// Whether a record's figures are acceptable at time `now`.
pub open spec fn record_valid(r: MaintenanceRecord, now: u64) -> bool {
    &&& r.service_date <= now
    &&& r.labor_cost >= 0 && r.parts_cost >= 0 && r.total_cost >= 0
    &&& r.labor_cost + r.parts_cost == r.total_cost
    &&& 1 <= r.condition_before <= 10 && 1 <= r.condition_after <= 10
    &&& 1 <= r.quality_rating <= 10
}

/// Sum of the quality ratings of a history.
pub open spec fn quality_sum(s: Seq<MaintenanceRecord>) -> int
    decreases s.len(),
{
    if s.len() == 0 {
        0
    } else {
        quality_sum(s.drop_last()) + s.last().quality_rating
    }
}

/// Number of services that left the asset in better condition.
pub open spec fn improved_count(s: Seq<MaintenanceRecord>) -> int
    decreases s.len(),
{
    if s.len() == 0 {
        0
    } else {
        improved_count(s.drop_last()) + if s.last().condition_after > s.last().condition_before {
            1int
        } else {
            0int
        }
    }
}

/// Number of preventive services.
pub open spec fn preventive_count(s: Seq<MaintenanceRecord>) -> int
    decreases s.len(),
{
    if s.len() == 0 {
        0
    } else {
        preventive_count(s.drop_last()) + if s.last().maintenance_type
            == MaintenanceType::Preventive {
            1int
        } else {
            0int
        }
    }
}

/// Points taken off for a schedule that is overdue at `now`: two per full day
/// overdue, at most thirty.
pub open spec fn overdue_penalty(schedule: Option<ScheduledMaintenance>, now: u64) -> int {
    match schedule {
        Some(s) => if now > s.next_service_due {
            let days = (now - s.next_service_due) / SECONDS_PER_DAY as int;
            if 2 * days < 30 {
                2 * days
            } else {
                30
            }
        } else {
            0
        },
        None => 0,
    }
}

/// The health score: 100 without history; else 40% of the average quality
/// (scaled to 100), 30% of the share of preventive services, five points per
/// improving service, less the overdue penalty, kept within 0 to 100.
pub open spec fn health_score_of(
    s: Seq<MaintenanceRecord>,
    schedule: Option<ScheduledMaintenance>,
    now: u64,
) -> int {
    if s.len() == 0 {
        100
    } else {
        let avg_quality = quality_sum(s) * 10 / s.len() as int;
        let preventive_ratio = preventive_count(s) * 100 / s.len() as int;
        let raw = avg_quality * 4 / 10 + preventive_ratio * 3 / 10 + 5 * improved_count(s);
        let penalty = overdue_penalty(schedule, now);
        let score = if raw > penalty {
            raw - penalty
        } else {
            0
        };
        if score > 100 {
            100
        } else {
            score
        }
    }
}

proof fn lemma_counts_bounded(s: Seq<MaintenanceRecord>)
    requires
        forall|i: int| 0 <= i < s.len() ==> #[trigger] s[i].quality_rating <= 10,
    ensures
        0 <= quality_sum(s) <= 10 * s.len(),
        0 <= improved_count(s) <= s.len(),
        0 <= preventive_count(s) <= s.len(),
    decreases s.len(),
{
    if s.len() > 0 {
        let d = s.drop_last();
        assert forall|i: int| 0 <= i < d.len() implies #[trigger] d[i].quality_rating <= 10 by {
            assert(d[i] == s[i]);
        }
        lemma_counts_bounded(d);
        assert(s.last() == s[s.len() - 1]);
    }
}

/// The health score of an asset with history `history` and schedule `schedule`
/// at time `now`.
pub fn calculate_health_score(
    history: &Vec<MaintenanceRecord>,
    schedule: Option<ScheduledMaintenance>,
    now: u64,
) -> (r: u32)
    requires
        forall|i: int| 0 <= i < history@.len() ==> #[trigger] history@[i].quality_rating <= 10,
    ensures
        r == health_score_of(history@, schedule, now),
        r <= 100,
{
    let n = history.len();
    if n == 0 {
        return 100;
    }
    let mut total_quality: u128 = 0;
    let mut improvements: u128 = 0;
    let mut preventive: u128 = 0;
    let mut i: usize = 0;
    while i < n
        invariant
            n == history@.len(),
            i <= n,
            forall|j: int| 0 <= j < history@.len() ==> #[trigger] history@[j].quality_rating <= 10,
            total_quality == quality_sum(history@.subrange(0, i as int)),
            improvements == improved_count(history@.subrange(0, i as int)),
            preventive == preventive_count(history@.subrange(0, i as int)),
            total_quality <= 10 * i,
            improvements <= i,
            preventive <= i,
        decreases n - i,
    {
        let rec = history[i];
        proof {
            let s = history@.subrange(0, i as int + 1);
            assert(s.drop_last() =~= history@.subrange(0, i as int));
            assert(s.last() == rec);
        }
        total_quality = total_quality + rec.quality_rating as u128;
        if rec.condition_after > rec.condition_before {
            improvements = improvements + 1;
        }
        if rec.maintenance_type == MaintenanceType::Preventive {
            preventive = preventive + 1;
        }
        i = i + 1;
    }
    proof {
        assert(history@.subrange(0, n as int) =~= history@);
    }
    let len = n as u128;
    let avg_quality = total_quality * 10 / len;
    let preventive_ratio = preventive * 100 / len;
    proof {
        assert(avg_quality <= 100) by (nonlinear_arith)
            requires
                avg_quality == (total_quality * 10) as int / len as int,
                total_quality <= 10 * len,
                len > 0,
        ;
        assert(preventive_ratio <= 100) by (nonlinear_arith)
            requires
                preventive_ratio == (preventive * 100) as int / len as int,
                preventive <= len,
                len > 0,
        ;
    }
    let raw = avg_quality * 4 / 10 + preventive_ratio * 3 / 10 + 5 * improvements;
    let penalty: u128 = match schedule {
        Some(s) => if now > s.next_service_due {
            let days = (now - s.next_service_due) / SECONDS_PER_DAY;
            if days < 15 {
                (2 * days) as u128
            } else {
                30
            }
        } else {
            0
        },
        None => 0,
    };
    let score = if raw > penalty {
        raw - penalty
    } else {
        0
    };
    if score > 100 {
        100
    } else {
        score as u32
    }
}

impl AssetMaintenanceContract {
    /// The outcome that `add_maintenance_record` owes: the provider must be
    /// registered and active, the record valid at `now`, and the asset's running
    /// totals must stay within their integer types.
    pub open spec fn record_check(&self, record: MaintenanceRecord, now: u64) -> Result<(), Error> {
        let st = self.stats_of(record.asset_id);
        if !self.providers@.contains_key(record.provider.id) {
            Err(Error::ProviderNotRegistered)
        } else if !self.providers@[record.provider.id].is_active {
            Err(Error::Unauthorized)
        } else if !record_valid(record, now) {
            Err(Error::InvalidMaintenanceRecord)
        } else if st.total_cost + record.total_cost > i128::MAX || st.total_downtime_hours
            + record.duration_hours > u64::MAX || st.service_count + 1 > u32::MAX {
            Err(Error::ArithmeticOverflow)
        } else {
            Ok(())
        }
    }

    /// The outcome that `complete_scheduled_maintenance` owes: the next due date
    /// of a plan that schedules itself must fit, then as `record_check`.
    pub open spec fn completion_check(&self, asset_id: u64, record: MaintenanceRecord, now: u64) -> Result<(), Error> {
        match self.schedule_of(asset_id) {
            Some(s) => if s.auto_schedule && record.service_date + s.frequency_days
                * SECONDS_PER_DAY > u64::MAX {
                Err(Error::ArithmeticOverflow)
            } else {
                self.record_check(record, now)
            },
            None => self.record_check(record, now),
        }
    }

    /// Every stored history holds only valid ratings.
    pub open spec fn wf(&self) -> bool {
        forall|id: u64| #[trigger]
            self.history@.contains_key(id) ==> forall|i: int|
                0 <= i < self.history@[id]@.len() ==> #[trigger] self.history@[id]@[i].quality_rating
                    <= 10
    }

    pub open spec fn history_of(&self, asset_id: u64) -> Seq<MaintenanceRecord> {
        if self.history@.contains_key(asset_id) {
            self.history@[asset_id]@
        } else {
            Seq::empty()
        }
    }

    pub open spec fn schedule_of(&self, asset_id: u64) -> Option<ScheduledMaintenance> {
        if self.schedules@.contains_key(asset_id) {
            Some(self.schedules@[asset_id])
        } else {
            None
        }
    }

    /// The statistics of an asset without any service.
    pub open spec fn fresh_stats() -> AssetStats {
        AssetStats { total_cost: 0, total_downtime_hours: 0, service_count: 0, health_score: 100 }
    }

    pub open spec fn stats_of(&self, asset_id: u64) -> AssetStats {
        if self.stats@.contains_key(asset_id) {
            self.stats@[asset_id]
        } else {
            Self::fresh_stats()
        }
    }

    /// `self` is `old` after `record` was filed at time `now`: the record ends the
    /// asset's history, the statistics count it, and the health score is that of
    /// the new history.
    pub open spec fn with_record(&self, old: &AssetMaintenanceContract, record: MaintenanceRecord, now: u64) -> bool {
        let a = record.asset_id;
        let h = old.history_of(a).push(record);
        let st = old.stats_of(a);
        &&& record_valid(record, now)
        &&& self.history_of(a) == h
        &&& self.stats@ == old.stats@.insert(
            a,
            AssetStats {
                total_cost: (st.total_cost + record.total_cost) as i128,
                total_downtime_hours: (st.total_downtime_hours + record.duration_hours) as u64,
                service_count: (st.service_count + 1) as u32,
                health_score: health_score_of(h, old.schedule_of(a), now) as u32,
            },
        )
        &&& forall|x: u64| x != a ==> #[trigger] self.history_of(x) == old.history_of(x)
        &&& self.providers@ == old.providers@
    }

    /// An empty maintenance register.
    pub fn new() -> (r: AssetMaintenanceContract)
        ensures
            r.wf(),
            r.providers@.is_empty(),
            r.history@.is_empty(),
            r.schedules@.is_empty(),
            r.stats@.is_empty(),
    {
        AssetMaintenanceContract {
            providers: HashMap::new(),
            history: HashMap::new(),
            schedules: HashMap::new(),
            stats: HashMap::new(),
        }
    }

    /// Registers (or replaces) the profile of a service provider.
    pub fn register_provider(&mut self, provider: ProviderProfile)
        requires
            old(self).wf(),
        ensures
            final(self).wf(),
            final(self).providers@ == old(self).providers@.insert(provider.address.id, provider),
            final(self).history@ == old(self).history@,
            final(self).schedules@ == old(self).schedules@,
            final(self).stats@ == old(self).stats@,
    {
        self.providers.insert(provider.address.id, provider);
    }

    /// Marks a registered provider inactive; an unknown provider is ignored.
    pub fn deactivate_provider(&mut self, provider: Address)
        requires
            old(self).wf(),
        ensures
            final(self).wf(),
            old(self).providers@.contains_key(provider.id) ==> final(self).providers@ == old(
                self,
            ).providers@.insert(
                provider.id,
                ProviderProfile { is_active: false, ..old(self).providers@[provider.id] },
            ),
            !old(self).providers@.contains_key(provider.id) ==> final(self).providers@ == old(
                self,
            ).providers@,
            final(self).history@ == old(self).history@,
            final(self).schedules@ == old(self).schedules@,
            final(self).stats@ == old(self).stats@,
    {
        if let Some(mut profile) = self.providers.remove(&provider.id) {
            profile.is_active = false;
            self.providers.insert(provider.id, profile);
        } else {
            proof {
                assert(self.providers@ =~= old(self).providers@);
            }
        }
    }

    /// The profile of a registered provider.
    pub fn get_provider_details(&self, provider: Address) -> (r: Option<&ProviderProfile>)
        ensures
            match r {
                Some(p) => self.providers@.contains_key(provider.id) && *p == self.providers@[provider.id],
                None => !self.providers@.contains_key(provider.id),
            },
    {
        self.providers.get(&provider.id)
    }

    /// Files a service record at time `now` from an active provider, adds it to
    /// the asset's history and updates its statistics and health score.
    pub fn add_maintenance_record(&mut self, record: MaintenanceRecord, now: u64) -> (r: Result<
        (),
        Error,
    >)
        requires
            old(self).wf(),
        ensures
            final(self).wf(),
            r == old(self).record_check(record, now),
            r is Err ==> final(self).history@ == old(self).history@ && final(self).stats@ == old(
                self,
            ).stats@,
            r is Ok ==> final(self).with_record(old(self), record, now),
            final(self).providers@ == old(self).providers@,
            final(self).schedules@ == old(self).schedules@,
    {
        match self.providers.get(&record.provider.id) {
            None => return Err(Error::ProviderNotRegistered),
            Some(profile) => if !profile.is_active {
                return Err(Error::Unauthorized);
            },
        }
        if record.service_date > now || record.labor_cost < 0 || record.parts_cost < 0
            || record.total_cost < 0 || record.labor_cost > i128::MAX - record.parts_cost
            || record.labor_cost + record.parts_cost != record.total_cost
            || record.condition_before < 1 || record.condition_before > 10
            || record.condition_after < 1 || record.condition_after > 10
            || record.quality_rating < 1 || record.quality_rating > 10 {
            return Err(Error::InvalidMaintenanceRecord);
        }
        let a = record.asset_id;
        let st = match self.stats.get(&a) {
            Some(s) => *s,
            None => AssetStats {
                total_cost: 0,
                total_downtime_hours: 0,
                service_count: 0,
                health_score: 100,
            },
        };
        if st.total_cost > i128::MAX - record.total_cost || st.total_downtime_hours > u64::MAX
            - record.duration_hours as u64 || st.service_count == u32::MAX {
            return Err(Error::ArithmeticOverflow);
        }
        let mut records = match self.history.remove(&a) {
            Some(v) => v,
            None => Vec::new(),
        };
        let ghost before = records@;
        records.push(record);
        proof {
            assert(before == old(self).history_of(a));
            assert forall|i: int| 0 <= i < records@.len() implies #[trigger] records@[i].quality_rating
                <= 10 by {
                if i < before.len() {
                    assert(records@[i] == before[i]);
                }
            }
        }
        let schedule = match self.schedules.get(&a) {
            Some(s) => Some(*s),
            None => None,
        };
        let score = calculate_health_score(&records, schedule, now);
        self.history.insert(a, records);
        self.stats.insert(
            a,
            AssetStats {
                total_cost: st.total_cost + record.total_cost,
                total_downtime_hours: st.total_downtime_hours + record.duration_hours as u64,
                service_count: st.service_count + 1,
                health_score: score,
            },
        );
        proof {
            assert forall|x: u64| x != a implies #[trigger] self.history_of(x) == old(
                self,
            ).history_of(x) by {
                assert(self.history@.contains_key(x) == old(self).history@.contains_key(x));
            }
        }
        Ok(())
    }

    /// The service records of an asset, oldest first.
    pub fn get_maintenance_history(&self, asset_id: u64) -> (r: Vec<MaintenanceRecord>)
        ensures
            r@ == self.history_of(asset_id),
    {
        let mut out: Vec<MaintenanceRecord> = Vec::new();
        if let Some(records) = self.history.get(&asset_id) {
            let mut i: usize = 0;
            while i < records.len()
                invariant
                    i <= records@.len(),
                    out@ == records@.subrange(0, i as int),
                decreases records@.len() - i,
            {
                out.push(records[i]);
                proof {
                    assert(out@ =~= records@.subrange(0, i as int + 1));
                }
                i = i + 1;
            }
            proof {
                assert(out@ =~= records@);
            }
        }
        out
    }

    /// Sets the service plan of an asset; the frequency must be positive.
    pub fn schedule_maintenance(&mut self, schedule: ScheduledMaintenance) -> (r: Result<(), Error>)
        requires
            old(self).wf(),
        ensures
            final(self).wf(),
            r is Ok <==> schedule.frequency_days > 0,
            r is Err ==> r == Err::<(), Error>(Error::InvalidSchedule) && final(self).schedules@
                == old(self).schedules@,
            r is Ok ==> final(self).schedules@ == old(self).schedules@.insert(
                schedule.asset_id,
                schedule,
            ),
            final(self).history@ == old(self).history@,
            final(self).stats@ == old(self).stats@,
            final(self).providers@ == old(self).providers@,
    {
        if schedule.frequency_days == 0 {
            return Err(Error::InvalidSchedule);
        }
        self.schedules.insert(schedule.asset_id, schedule);
        Ok(())
    }

    /// The service plan of an asset, if it has one.
    pub fn get_upcoming_maintenance(&self, asset_id: u64) -> (r: Option<ScheduledMaintenance>)
        ensures
            r == self.schedule_of(asset_id),
    {
        match self.schedules.get(&asset_id) {
            Some(s) => Some(*s),
            None => None,
        }
    }

    /// The statistics of an asset: those of an unserviced asset when it has none.
    pub fn get_asset_stats(&self, asset_id: u64) -> (r: AssetStats)
        ensures
            r == self.stats_of(asset_id),
    {
        match self.stats.get(&asset_id) {
            Some(s) => *s,
            None => AssetStats {
                total_cost: 0,
                total_downtime_hours: 0,
                service_count: 0,
                health_score: 100,
            },
        }
    }

    /// Whether the asset's total maintenance cost exceeds `threshold`.
    pub fn is_maintenance_cost_excessive(&self, asset_id: u64, threshold: i128) -> (r: bool)
        ensures
            r == (self.stats_of(asset_id).total_cost > threshold),
    {
        self.get_asset_stats(asset_id).total_cost > threshold
    }

    /// Replaces the service plan of an asset that has one.
    pub fn update_maintenance_schedule(&mut self, schedule: ScheduledMaintenance) -> (r: Result<
        (),
        Error,
    >)
        requires
            old(self).wf(),
        ensures
            final(self).wf(),
            r is Ok <==> old(self).schedules@.contains_key(schedule.asset_id)
                && schedule.frequency_days > 0,
            r is Err ==> r == Err::<(), Error>(Error::InvalidSchedule) && final(self).schedules@
                == old(self).schedules@,
            r is Ok ==> final(self).schedules@ == old(self).schedules@.insert(
                schedule.asset_id,
                schedule,
            ),
            final(self).history@ == old(self).history@,
            final(self).stats@ == old(self).stats@,
            final(self).providers@ == old(self).providers@,
    {
        if !self.schedules.contains_key(&schedule.asset_id) {
            return Err(Error::InvalidSchedule);
        }
        self.schedule_maintenance(schedule)
    }

    /// Files `record` as the service that the plan of `asset_id` called for; a
    /// plan that schedules itself then starts over from the service date.
    pub fn complete_scheduled_maintenance(
        &mut self,
        asset_id: u64,
        record: MaintenanceRecord,
        now: u64,
    ) -> (r: Result<(), Error>)
        requires
            old(self).wf(),
        ensures
            final(self).wf(),
            r is Err ==> final(self).history@ == old(self).history@ && final(self).stats@ == old(
                self,
            ).stats@ && final(self).schedules@ == old(self).schedules@,
            r == old(self).completion_check(asset_id, record, now),
            r is Ok ==> final(self).with_record(old(self), record, now),
            r is Ok ==> match old(self).schedule_of(asset_id) {
                Some(s) => if s.auto_schedule {
                    final(self).schedules@ == old(self).schedules@.insert(
                        asset_id,
                        ScheduledMaintenance {
                            last_service_date: record.service_date,
                            next_service_due: (record.service_date + s.frequency_days
                                * SECONDS_PER_DAY) as u64,
                            ..s
                        },
                    )
                } else {
                    final(self).schedules@ == old(self).schedules@
                },
                None => final(self).schedules@ == old(self).schedules@,
            },
    {
        let next = match self.schedules.get(&asset_id) {
            Some(s) => if s.auto_schedule {
                let period = s.frequency_days as u64 * SECONDS_PER_DAY;
                if record.service_date > u64::MAX - period {
                    return Err(Error::ArithmeticOverflow);
                }
                Some(ScheduledMaintenance {
                    last_service_date: record.service_date,
                    next_service_due: record.service_date + period,
                    ..*s
                })
            } else {
                None
            },
            None => None,
        };
        self.add_maintenance_record(record, now)?;
        let ghost mid = *self;
        if let Some(n) = next {
            self.schedules.insert(asset_id, n);
        }
        proof {
            assert(self.history@ == mid.history@ && self.stats@ == mid.stats@);
            assert forall|x: u64| x != record.asset_id implies #[trigger] self.history_of(x)
                == old(self).history_of(x) by {
                assert(mid.history_of(x) == old(self).history_of(x));
            }
        }
        Ok(())
    }

    /// The asset's total maintenance cost.
    pub fn calculate_total_maintenance_cost(&self, asset_id: u64) -> (r: i128)
        ensures
            r == self.stats_of(asset_id).total_cost,
    {
        self.get_asset_stats(asset_id).total_cost
    }

    /// The hours the asset has spent in service.
    pub fn calculate_asset_downtime(&self, asset_id: u64) -> (r: u64)
        ensures
            r == self.stats_of(asset_id).total_downtime_hours,
    {
        self.get_asset_stats(asset_id).total_downtime_hours
    }

    /// The asset's health score as of its last service.
    pub fn get_asset_health_score(&self, asset_id: u64) -> (r: u32)
        ensures
            r == self.stats_of(asset_id).health_score,
    {
        self.get_asset_stats(asset_id).health_score
    }

    /// Whether the asset's scheduled service is past due at `now`.
    pub fn get_overdue_maintenance(&self, asset_id: u64, now: u64) -> (r: bool)
        ensures
            r == match self.schedule_of(asset_id) {
                Some(s) => now > s.next_service_due,
                None => false,
            },
    {
        match self.schedules.get(&asset_id) {
            Some(s) => now > s.next_service_due,
            None => false,
        }
    }
}

} // verus!
