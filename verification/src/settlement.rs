//! Energy settlement: which prices a month's load is billed against.
use crate::error::TariffError;
use crate::tou::{some_window_covers, window_covers, CivilMinute, TouSchedule};
use vstd::prelude::*;

verus! {

/// How energy is priced for a contract.
///
/// `H` is a hedged flat rate, `A` a non-zero adder on a price series, `R` a
/// time-of-use period rate. This type stores them and hands them back.
#[derive(Debug, Clone, PartialEq)]
pub enum Settlement<H, A, R> {
    /// Each hour billed at the planning / day-ahead series.
    DamIndexed,
    /// Each hour billed at the settlement / real-time series.
    RealTime,
    /// Each hour billed at the same flat rate.
    Hedged(H),
    /// Day-ahead series plus a non-zero adder.
    DamIndexedAdder(A),
    /// Real-time series plus a non-zero adder.
    RealTimeAdder(A),
    /// Civil local time selects a period rate. This crate does not convert UTC.
    Tou(TouSchedule<R>),
}

/// One of the two price series a site may be billed against.
#[derive(Debug, Clone, Copy, PartialEq, Eq, Structural)]
pub enum PriceSeries {
    /// Planning / day-ahead prices.
    DayAhead,
    /// Settlement / real-time prices.
    RealTime,
}

/// The prices each load hour is billed at under a settlement.
#[derive(Debug, Clone, PartialEq)]
pub enum EnergyPricing<H, A, R> {
    /// Hour `i` at price `i` of `series`, plus `adder` when there is one.
    Series {
        /// The series the hours are billed against.
        series: PriceSeries,
        /// Added to every price of the series.
        adder: Option<A>,
    },
    /// Every hour at the same flat rate; the price series are not used.
    Flat(H),
    /// Hour `i` at the `i`-th rate.
    PerInterval(Vec<R>),
}

impl<H: Copy, A: Copy, R: Copy> Settlement<H, A, R> {
    /// How `load_len` load hours are priced under this settlement, given
    /// `local` (the civil time of each hour, read only for time-of-use) and the
    /// lengths of the day-ahead and real-time price series.
    ///
    /// # Errors
    /// [`TariffError::SeriesLengthMismatch`] when the chosen series is not one
    /// price per load hour; [`TariffError::MissingCivilTime`] for time-of-use
    /// with load hours and no civil times; otherwise a time-of-use
    /// [`TariffError::CivilTimeLengthMismatch`] or
    /// [`TariffError::UnmatchedTouInterval`] (see [`TouSchedule::interval_rates`]).
    pub fn pricing(
        &self,
        load_len: usize,
        local: &[CivilMinute],
        day_ahead_len: usize,
        real_time_len: usize,
    ) -> (result: Result<EnergyPricing<H, A, R>, TariffError>)
        ensures
            match *self {
                Settlement::DamIndexed => if load_len == day_ahead_len {
                    result == Ok::<EnergyPricing<H, A, R>, TariffError>(
                        EnergyPricing::Series { series: PriceSeries::DayAhead, adder: None },
                    )
                } else {
                    result == Err::<EnergyPricing<H, A, R>, TariffError>(
                        TariffError::SeriesLengthMismatch { load: load_len, prices: day_ahead_len },
                    )
                },
                Settlement::RealTime => if load_len == real_time_len {
                    result == Ok::<EnergyPricing<H, A, R>, TariffError>(
                        EnergyPricing::Series { series: PriceSeries::RealTime, adder: None },
                    )
                } else {
                    result == Err::<EnergyPricing<H, A, R>, TariffError>(
                        TariffError::SeriesLengthMismatch { load: load_len, prices: real_time_len },
                    )
                },
                Settlement::Hedged(flat) => result == Ok::<EnergyPricing<H, A, R>, TariffError>(
                    EnergyPricing::Flat(flat),
                ),
                Settlement::DamIndexedAdder(adder) => if load_len == day_ahead_len {
                    result == Ok::<EnergyPricing<H, A, R>, TariffError>(
                        EnergyPricing::Series { series: PriceSeries::DayAhead, adder: Some(adder) },
                    )
                } else {
                    result == Err::<EnergyPricing<H, A, R>, TariffError>(
                        TariffError::SeriesLengthMismatch { load: load_len, prices: day_ahead_len },
                    )
                },
                Settlement::RealTimeAdder(adder) => if load_len == real_time_len {
                    result == Ok::<EnergyPricing<H, A, R>, TariffError>(
                        EnergyPricing::Series { series: PriceSeries::RealTime, adder: Some(adder) },
                    )
                } else {
                    result == Err::<EnergyPricing<H, A, R>, TariffError>(
                        TariffError::SeriesLengthMismatch { load: load_len, prices: real_time_len },
                    )
                },
                Settlement::Tou(schedule) => tou_pricing_outcome(schedule, load_len, local@, result),
            },
    {
        match self {
            Settlement::DamIndexed => {
                if load_len != day_ahead_len {
                    return Err(
                        TariffError::SeriesLengthMismatch { load: load_len, prices: day_ahead_len },
                    );
                }
                Ok(EnergyPricing::Series { series: PriceSeries::DayAhead, adder: None })
            },
            Settlement::RealTime => {
                if load_len != real_time_len {
                    return Err(
                        TariffError::SeriesLengthMismatch { load: load_len, prices: real_time_len },
                    );
                }
                Ok(EnergyPricing::Series { series: PriceSeries::RealTime, adder: None })
            },
            Settlement::Hedged(flat) => Ok(EnergyPricing::Flat(*flat)),
            Settlement::DamIndexedAdder(adder) => {
                if load_len != day_ahead_len {
                    return Err(
                        TariffError::SeriesLengthMismatch { load: load_len, prices: day_ahead_len },
                    );
                }
                Ok(EnergyPricing::Series { series: PriceSeries::DayAhead, adder: Some(*adder) })
            },
            Settlement::RealTimeAdder(adder) => {
                if load_len != real_time_len {
                    return Err(
                        TariffError::SeriesLengthMismatch { load: load_len, prices: real_time_len },
                    );
                }
                Ok(EnergyPricing::Series { series: PriceSeries::RealTime, adder: Some(*adder) })
            },
            Settlement::Tou(schedule) => {
                if local.len() == 0 && load_len != 0 {
                    return Err(TariffError::MissingCivilTime);
                }
                match schedule.interval_rates(load_len, local) {
                    Ok(rates) => Ok(EnergyPricing::PerInterval(rates)),
                    Err(error) => Err(error),
                }
            },
        }
    }
}

/// What [`Settlement::pricing`] answers for a time-of-use schedule.
pub open spec fn tou_pricing_outcome<H, A, R>(
    schedule: TouSchedule<R>,
    load_len: usize,
    local: Seq<CivilMinute>,
    result: Result<EnergyPricing<H, A, R>, TariffError>,
) -> bool {
    if local.len() == 0 && load_len != 0 {
        result == Err::<EnergyPricing<H, A, R>, TariffError>(TariffError::MissingCivilTime)
    } else if load_len != local.len() {
        result == Err::<EnergyPricing<H, A, R>, TariffError>(
            TariffError::CivilTimeLengthMismatch { load: load_len, local: local.len() as usize },
        )
    } else if forall|k: int| 0 <= k < local.len() ==> some_window_covers(schedule@, #[trigger] local[k]@) {
        result matches Ok(EnergyPricing::PerInterval(rates)) && rates@.len() == local.len()
            && forall|k: int, i: int|
            0 <= k < local.len() && 0 <= i < schedule@.len() && window_covers(
                #[trigger] schedule@[i],
                #[trigger] local[k]@,
            ) ==> rates@[k] == schedule.rate_of(i)
    } else {
        result matches Err(TariffError::UnmatchedTouInterval { index }) && index < local.len()
            && !some_window_covers(schedule@, local[index as int]@) && forall|k: int|
            0 <= k < index ==> some_window_covers(schedule@, #[trigger] local[k]@)
    }
}

} // verus!
