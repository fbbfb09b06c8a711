//! Depreciation schedules of assets and the history of their periodic
//! depreciation, with recorded market valuations.
use vstd::prelude::*;
use std::collections::HashMap;
use vstd::arithmetic::div_mod::lemma_fundamental_div_mod;
use crate::error::Error;
use crate::types::Address;

verus! {

broadcast use vstd::std_specs::hash::group_hash_axioms;

#[derive(Clone, Copy, Debug, PartialEq, Eq, Structural)]
pub enum DepreciationMethod {
    StraightLine,
    DecliningBalance,
    DoubleDecliningBalance,
    UnitsOfProduction,
    SumOfYearsDigits,
}

#[derive(Clone, Copy, Debug, PartialEq, Eq, Structural)]
pub enum ValuationMethod {
    Market,
    Appraisal,
    Calculated,
    Oracle,
}

#[derive(Clone, Copy, Debug, PartialEq, Eq, Structural)]
pub struct DepreciationSchedule {
    pub asset_id: u64,
    pub purchase_date: u64,
    pub purchase_price: i128,
    pub salvage_value: i128,
    pub useful_life_months: u32,
    pub method: DepreciationMethod,
    /// Yearly rate in percent, for the declining-balance method.
    pub rate: u32,
    pub accumulated: i128,
    pub book_value: i128,
    pub last_calc: u64,
    pub next_calc: u64,
    pub auto_calc: bool,
}

#[derive(Clone, Copy, Debug, PartialEq, Eq, Structural)]
pub struct DepreciationEntry {
    pub entry_id: u64,
    pub asset_id: u64,
    pub period: u64,
    pub opening_value: i128,
    pub depreciation: i128,
    pub accumulated: i128,
    pub closing_value: i128,
    pub method: DepreciationMethod,
    pub timestamp: u64,
}

#[derive(Clone, Debug)]
pub struct ValuationRecord {
    pub valuation_id: u64,
    pub asset_id: u64,
    pub valuation_date: u64,
    pub purchase_price: i128,
    pub market_value: i128,
    pub book_value: i128,
    pub delta: i128,
    pub method: ValuationMethod,
    pub valuator: Address,
    pub confidence: u32,
    pub doc_hash: Vec<u8>,
    pub notes: String,
    pub timestamp: u64,
}

/// Schedules, depreciation histories and valuations keyed by asset id, with the
/// counters that number entries and valuations.
pub struct AssetDepreciationContract {
    pub schedules: HashMap<u64, DepreciationSchedule>,
    pub history: HashMap<u64, Vec<DepreciationEntry>>,
    pub valuations: HashMap<u64, Vec<ValuationRecord>>,
    pub depreciation_counter: u64,
    pub valuation_counter: u64,
}

/// Whether a schedule may be stored: a positive price above a non-negative
/// salvage value, and a useful life of at least a month.
pub open spec fn schedule_valid(s: DepreciationSchedule) -> bool {
    s.purchase_price > 0 && 0 <= s.salvage_value < s.purchase_price && s.useful_life_months > 0
}

/// The depreciation of one period before it is capped at the depreciable rest.
pub open spec fn raw_depreciation(s: DepreciationSchedule) -> int {
    match s.method {
        DepreciationMethod::StraightLine => (s.purchase_price - s.salvage_value)
            / s.useful_life_months as int,
        DepreciationMethod::DecliningBalance => s.book_value * s.rate as int / 100,
        DepreciationMethod::DoubleDecliningBalance => s.book_value * (200int
            / s.useful_life_months as int) / 100,
        _ => 0,
    }
}

/// The depreciation of one period: the raw figure, at most the book value above
/// salvage, and nothing once the book value has reached salvage.
pub open spec fn period_depreciation(s: DepreciationSchedule) -> int {
    if s.book_value <= s.salvage_value {
        0
    } else {
        let d = raw_depreciation(s);
        let rest = s.book_value - s.salvage_value;
        if d < rest {
            d
        } else {
            rest
        }
    }
}

/// Whether the product in the raw depreciation of `s` exceeds the integer type.
pub open spec fn raw_overflows(s: DepreciationSchedule) -> bool {
    match s.method {
        DepreciationMethod::DecliningBalance => s.book_value * s.rate > i128::MAX,
        DepreciationMethod::DoubleDecliningBalance => s.book_value * (200int
            / s.useful_life_months as int) > i128::MAX,
        _ => false,
    }
}

/// Whether `x * y` fits in an `i128`, for a positive `x` and a non-negative `y`.
fn fits_product(x: i128, y: i128) -> (r: bool)
    requires
        x > 0,
        y >= 0,
    ensures
        r == (x * y <= i128::MAX),
        r ==> x * y >= 0,
{
    proof {
        assert(x * y >= 0) by (nonlinear_arith)
            requires
                x > 0,
                y >= 0,
        ;
    }
    if y == 0 {
        return true;
    }
    let q = i128::MAX / y;
    proof {
        let m = i128::MAX as int;
        lemma_fundamental_div_mod(m, y as int);
        vstd::arithmetic::div_mod::lemma_mod_bound(m, y as int);
        if x <= q {
            assert(x * y <= m) by (nonlinear_arith)
                requires
                    x <= q,
                    y > 0,
                    m == y * q + m % (y as int),
                    m % (y as int) >= 0,
            ;
        } else {
            assert(x * y > m) by (nonlinear_arith)
                requires
                    x >= q + 1,
                    y > 0,
                    m == y * q + m % (y as int),
                    m % (y as int) < y,
            ;
        }
    }
    x <= q
}

impl AssetDepreciationContract {
    /// The outcome that `calculate_depreciation` owes: the asset needs a
    /// schedule; at salvage nothing is computed; else the computation, the
    /// accumulated depreciation and the entry counter must fit their types.
    pub open spec fn depreciation_check(&self, asset_id: u64) -> Result<(), Error> {
        let s = self.schedules@[asset_id];
        if !self.schedules@.contains_key(asset_id) {
            Err(Error::AssetNotFound)
        } else if s.book_value <= s.salvage_value {
            Ok(())
        } else if raw_overflows(s) || s.accumulated + period_depreciation(s) > i128::MAX
            || self.depreciation_counter + 1 > u64::MAX {
            Err(Error::ArithmeticOverflow)
        } else {
            Ok(())
        }
    }

    /// Every stored schedule is valid.
    pub open spec fn wf(&self) -> bool {
        forall|id: u64| #[trigger]
            self.schedules@.contains_key(id) ==> schedule_valid(self.schedules@[id])
    }

    pub open spec fn valuations_of(&self, asset_id: u64) -> Seq<ValuationRecord> {
        if self.valuations@.contains_key(asset_id) {
            self.valuations@[asset_id]@
        } else {
            Seq::empty()
        }
    }

    pub open spec fn history_of(&self, asset_id: u64) -> Seq<DepreciationEntry> {
        if self.history@.contains_key(asset_id) {
            self.history@[asset_id]@
        } else {
            Seq::empty()
        }
    }

    /// An empty contract state.
    pub fn new() -> (r: AssetDepreciationContract)
        ensures
            r.wf(),
            r.schedules@.is_empty(),
            r.history@.is_empty(),
            r.valuations@.is_empty(),
            r.depreciation_counter == 0,
            r.valuation_counter == 0,
    {
        AssetDepreciationContract {
            schedules: HashMap::new(),
            history: HashMap::new(),
            valuations: HashMap::new(),
            depreciation_counter: 0,
            valuation_counter: 0,
        }
    }

    /// Stores (or replaces) the schedule of `schedule.asset_id`.
    pub fn set_schedule(&mut self, schedule: DepreciationSchedule) -> (r: Result<(), Error>)
        requires
            old(self).wf(),
        ensures
            final(self).wf(),
            r is Ok <==> schedule_valid(schedule),
            r is Ok ==> final(self).schedules@ == old(self).schedules@.insert(
                schedule.asset_id,
                schedule,
            ),
            r is Err ==> r == Err::<(), Error>(Error::InvalidPurchaseValue)
                && final(self).schedules@ == old(self).schedules@,
            final(self).history@ == old(self).history@,
            final(self).depreciation_counter == old(self).depreciation_counter,
    {
        if schedule.purchase_price <= 0 || schedule.salvage_value < 0 || schedule.salvage_value
            >= schedule.purchase_price || schedule.useful_life_months == 0 {
            return Err(Error::InvalidPurchaseValue);
        }
        self.schedules.insert(schedule.asset_id, schedule);
        Ok(())
    }

    /// Depreciates the asset for the period `period_ts` at time `now`: lowers its
    /// book value, raises the accumulated depreciation and appends an entry to
    /// its history. Returns the depreciation, zero (with nothing recorded) once
    /// the book value has reached salvage.
    pub fn calculate_depreciation(&mut self, asset_id: u64, period_ts: u64, now: u64) -> (r: Result<
        i128,
        Error,
    >)
        requires
            old(self).wf(),
        ensures
            final(self).wf(),
            r is Ok <==> old(self).depreciation_check(asset_id) is Ok,
            r is Err ==> Err::<(), Error>(r->Err_0) == old(self).depreciation_check(asset_id),
            final(self).valuations@ == old(self).valuations@,
            final(self).valuation_counter == old(self).valuation_counter,
            r is Ok ==> ({
                let s = old(self).schedules@[asset_id];
                let d = period_depreciation(s);
                &&& r == Ok::<i128, Error>(d as i128)
                &&& s.book_value <= s.salvage_value ==> final(self).schedules@ == old(
                    self,
                ).schedules@ && final(self).history@ == old(self).history@
                    && final(self).depreciation_counter == old(self).depreciation_counter
                &&& s.book_value > s.salvage_value ==> {
                    let ns = DepreciationSchedule {
                        accumulated: (s.accumulated + d) as i128,
                        book_value: (s.book_value - d) as i128,
                        last_calc: period_ts,
                        ..s
                    };
                    &&& final(self).schedules@ == old(self).schedules@.insert(asset_id, ns)
                    &&& final(self).depreciation_counter == old(self).depreciation_counter + 1
                    &&& final(self).history_of(asset_id) == old(self).history_of(asset_id).push(
                        DepreciationEntry {
                            entry_id: final(self).depreciation_counter,
                            asset_id,
                            period: period_ts,
                            opening_value: s.book_value,
                            depreciation: d as i128,
                            accumulated: ns.accumulated,
                            closing_value: ns.book_value,
                            method: s.method,
                            timestamp: now,
                        },
                    )
                }
            }),
            old(self).schedules@.contains_key(asset_id) && old(self).schedules@[asset_id].book_value
                <= old(self).schedules@[asset_id].salvage_value ==> r == Ok::<i128, Error>(0),
            forall|x: u64| x != asset_id ==> #[trigger] final(self).history_of(x) == old(
                self,
            ).history_of(x),
            r is Err ==> final(self).schedules@ == old(self).schedules@ && final(self).history@
                == old(self).history@ && final(self).depreciation_counter == old(
                self,
            ).depreciation_counter,
    {
        let s = match self.schedules.get(&asset_id) {
            Some(s) => *s,
            None => return Err(Error::AssetNotFound),
        };
        if s.book_value <= s.salvage_value {
            return Ok(0);
        }
        let months = s.useful_life_months as i128;
        let raw: i128 = match s.method {
            DepreciationMethod::StraightLine => (s.purchase_price - s.salvage_value) / months,
            DepreciationMethod::DecliningBalance => {
                let rate = s.rate as i128;
                if !fits_product(s.book_value, rate) {
                    return Err(Error::ArithmeticOverflow);
                }
                s.book_value * rate / 100
            },
            DepreciationMethod::DoubleDecliningBalance => {
                let rate = 200 / months;
                if !fits_product(s.book_value, rate) {
                    return Err(Error::ArithmeticOverflow);
                }
                s.book_value * rate / 100
            },
            _ => 0,
        };
        let rest = s.book_value - s.salvage_value;
        let d = if raw < rest {
            raw
        } else {
            rest
        };
        if s.accumulated > i128::MAX - d || self.depreciation_counter == u64::MAX {
            return Err(Error::ArithmeticOverflow);
        }
        let ns = DepreciationSchedule {
            accumulated: s.accumulated + d,
            book_value: s.book_value - d,
            last_calc: period_ts,
            ..s
        };
        self.schedules.insert(asset_id, ns);
        self.depreciation_counter = self.depreciation_counter + 1;
        let entry = DepreciationEntry {
            entry_id: self.depreciation_counter,
            asset_id,
            period: period_ts,
            opening_value: s.book_value,
            depreciation: d,
            accumulated: ns.accumulated,
            closing_value: ns.book_value,
            method: s.method,
            timestamp: now,
        };
        let mut entries = match self.history.remove(&asset_id) {
            Some(v) => v,
            None => Vec::new(),
        };
        entries.push(entry);
        self.history.insert(asset_id, entries);
        proof {
            assert forall|x: u64| x != asset_id implies #[trigger] self.history_of(x) == old(
                self,
            ).history_of(x) by {
                assert(self.history@.contains_key(x) == old(self).history@.contains_key(x));
            }
        }
        Ok(d)
    }

    /// The current book value of the asset.
    pub fn get_book_value(&self, asset_id: u64) -> (r: Result<i128, Error>)
        ensures
            r == if self.schedules@.contains_key(asset_id) {
                Ok::<i128, Error>(self.schedules@[asset_id].book_value)
            } else {
                Err(Error::AssetNotFound)
            },
    {
        match self.schedules.get(&asset_id) {
            Some(s) => Ok(s.book_value),
            None => Err(Error::AssetNotFound),
        }
    }

    /// The depreciation entries of the asset, oldest first.
    pub fn get_depreciation_history(&self, asset_id: u64) -> (r: Vec<DepreciationEntry>)
        ensures
            r@ == self.history_of(asset_id),
    {
        let mut out: Vec<DepreciationEntry> = Vec::new();
        if let Some(entries) = self.history.get(&asset_id) {
            let mut i: usize = 0;
            while i < entries.len()
                invariant
                    i <= entries@.len(),
                    out@ == entries@.subrange(0, i as int),
                decreases entries@.len() - i,
            {
                out.push(entries[i]);
                proof {
                    assert(out@ =~= entries@.subrange(0, i as int + 1));
                }
                i = i + 1;
            }
            proof {
                assert(out@ =~= entries@);
            }
        }
        out
    }

    /// The recorded valuations of the asset, oldest first.
    pub fn get_valuations(&self, asset_id: u64) -> (r: &[ValuationRecord])
        ensures
            r@ == self.valuations_of(asset_id),
    {
        match self.valuations.get(&asset_id) {
            Some(v) => v.as_slice(),
            None => &[],
        }
    }

    /// Records a market valuation of a scheduled asset, with its difference from
    /// the book value. The confidence is a percentage.
    pub fn record_valuation(
        &mut self,
        asset_id: u64,
        market_value: i128,
        method: ValuationMethod,
        confidence: u32,
        valuator: Address,
        doc_hash: Vec<u8>,
        notes: String,
        now: u64,
    ) -> (r: Result<u64, Error>)
        requires
            old(self).wf(),
        ensures
            final(self).wf(),
            final(self).schedules@ == old(self).schedules@,
            final(self).history@ == old(self).history@,
            r == if confidence > 100 {
                Err::<u64, Error>(Error::InvalidPurchaseValue)
            } else if !old(self).schedules@.contains_key(asset_id) {
                Err(Error::AssetNotFound)
            } else if market_value - old(self).schedules@[asset_id].book_value > i128::MAX
                || market_value - old(self).schedules@[asset_id].book_value < i128::MIN
                || old(self).valuation_counter == u64::MAX {
                Err(Error::ArithmeticOverflow)
            } else {
                Ok((old(self).valuation_counter + 1) as u64)
            },
            r is Ok ==> final(self).valuation_counter == old(self).valuation_counter + 1,
            r is Ok ==> ({
                let s = old(self).schedules@[asset_id];
                final(self).valuations_of(asset_id) == old(self).valuations_of(asset_id).push(
                    ValuationRecord {
                        valuation_id: final(self).valuation_counter,
                        asset_id,
                        valuation_date: now,
                        purchase_price: s.purchase_price,
                        market_value,
                        book_value: s.book_value,
                        delta: (market_value - s.book_value) as i128,
                        method,
                        valuator,
                        confidence,
                        doc_hash,
                        notes,
                        timestamp: now,
                    },
                )
            }),
            forall|x: u64| x != asset_id ==> #[trigger] final(self).valuations_of(x) == old(
                self,
            ).valuations_of(x),
            r is Err ==> final(self).valuation_counter == old(self).valuation_counter
                && final(self).valuations@ == old(self).valuations@,
    {
        if confidence > 100 {
            return Err(Error::InvalidPurchaseValue);
        }
        let s = match self.schedules.get(&asset_id) {
            Some(s) => *s,
            None => return Err(Error::AssetNotFound),
        };
        if (s.book_value >= 0 && market_value < i128::MIN + s.book_value) || (s.book_value < 0
            && market_value > i128::MAX + s.book_value) || self.valuation_counter == u64::MAX {
            return Err(Error::ArithmeticOverflow);
        }
        self.valuation_counter = self.valuation_counter + 1;
        let record = ValuationRecord {
            valuation_id: self.valuation_counter,
            asset_id,
            valuation_date: now,
            purchase_price: s.purchase_price,
            market_value,
            book_value: s.book_value,
            delta: market_value - s.book_value,
            method,
            valuator,
            confidence,
            doc_hash,
            notes,
            timestamp: now,
        };
        let mut records = match self.valuations.remove(&asset_id) {
            Some(v) => v,
            None => Vec::new(),
        };
        records.push(record);
        self.valuations.insert(asset_id, records);
        proof {
            assert forall|x: u64| x != asset_id implies #[trigger] self.valuations_of(x) == old(
                self,
            ).valuations_of(x) by {
                assert(self.valuations@.contains_key(x) == old(self).valuations@.contains_key(x));
            }
        }
        Ok(self.valuation_counter)
    }
}

} // verus!
