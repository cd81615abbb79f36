//! Utility tariff vocabulary: rate periods, seasons, meters, and which
//! seasonal charges apply in a month.

use vstd::prelude::*;

verus! {

/// Rate period type.
#[derive(Debug, Clone, Copy, PartialEq, Eq, Structural)]
pub enum RatePeriod {
    Peak,
    Shoulder,
    OffPeak,
    MidPeak,
}

/// Season type.
#[derive(Debug, Clone, Copy, PartialEq, Eq, Structural)]
pub enum Season {
    Winter,
    Spring,
    Summer,
    Fall,
    Annual,
}

/// Tariff meter type.
#[derive(Debug, Clone, Copy, PartialEq, Eq, Structural)]
pub enum MeterType {
    Electricity,
    NaturalGas,
    Water,
    Other,
}

/// Buy/sell mode.
#[derive(Debug, Clone, Copy, PartialEq, Eq, Structural)]
pub enum BuyOrSell {
    BuyFromUtility,
    SellToUtility,
    NetMetering,
}

impl Default for Season {
    fn default() -> (r: Self)
        ensures
            r == Season::Annual,
    {
        Season::Annual
    }
}

/// Position of a rate period in the per-period monthly arrays
/// (Peak, Shoulder, OffPeak, MidPeak).
pub open spec fn period_slot(p: RatePeriod) -> int {
    match p {
        RatePeriod::Peak => 0,
        RatePeriod::Shoulder => 1,
        RatePeriod::OffPeak => 2,
        RatePeriod::MidPeak => 3,
    }
}

/// The four rate periods take the four positions 0 to 3, each its own.
pub proof fn lemma_period_slots(p: RatePeriod, q: RatePeriod)
    ensures
        0 <= period_slot(p) < 4,
        period_slot(p) == period_slot(q) ==> p == q,
{
}

impl RatePeriod {
    /// Position of this period in the per-period monthly arrays.
    pub fn index(self) -> (r: usize)
        ensures
            r == period_slot(self),
            r < 4,
    {
        match self {
            RatePeriod::Peak => 0,
            RatePeriod::Shoulder => 1,
            RatePeriod::OffPeak => 2,
            RatePeriod::MidPeak => 3,
        }
    }
}

/// Position of a month (1 = January) in the twelve monthly records, or
/// `None` for a number that names no month.
pub fn month_slot(month: usize) -> (r: Option<usize>)
    ensures
        r == if 1 <= month <= 12 {
            Some((month - 1) as usize)
        } else {
            None::<usize>
        },
{
    if month == 0 || month > 12 {
        None
    } else {
        Some(month - 1)
    }
}

/// A charge restricted to `charge_season` applies in a month of
/// `month_season`: unrestricted and annual charges apply always, the others
/// only in their own season.
pub open spec fn charge_applies(charge_season: Option<Season>, month_season: Season) -> bool {
    match charge_season {
        None => true,
        Some(s) => s == Season::Annual || s == month_season,
    }
}

/// Unrestricted and annual charges apply in every month; a charge for one
/// of the four seasons applies in the months of that season and in no
/// other month.
pub proof fn lemma_seasonal_charges(charge_season: Option<Season>, month_season: Season)
    ensures
        charge_season is None ==> charge_applies(charge_season, month_season),
        charge_season == Some(Season::Annual) ==> charge_applies(charge_season, month_season),
        charge_season is Some && charge_season->Some_0 != Season::Annual ==> (charge_applies(
            charge_season,
            month_season,
        ) <==> charge_season->Some_0 == month_season),
{
}

/// Whether a charge for `charge_season` applies in a month of `month_season`.
pub fn season_matches(charge_season: Option<Season>, month_season: Season) -> (r: bool)
    ensures
        r == charge_applies(charge_season, month_season),
{
    match charge_season {
        None | Some(Season::Annual) => true,
        Some(s) => s == month_season,
    }
}

} // verus!
