//! Coincident-peak charges: a rule naming 4 or 12 intervals a year, billed at
//! an annual rate per kilowatt.
use crate::contract::{Minutes, PassThrough};
use crate::error::TariffError;
use vstd::prelude::*;

verus! {

/// The first position of `months` whose entry is not in `1..=12`.
pub open spec fn first_bad_month(months: Seq<u8>, i: int) -> bool {
    &&& 0 <= i < months.len()
    &&& !(1 <= months[i] <= 12)
    &&& forall|k: int| 0 <= k < i ==> 1 <= #[trigger] months[k] <= 12
}

/// What a rule reports when its charge is not passed through.
pub open spec fn not_passed_through_line() -> Seq<char> {
    "coincident-peak charge is not passed through; exposure is $0"@
}

/// A coincident-peak rule: 4 or 12 intervals per year, an annual rate per
/// kilowatt, and whether the charge reaches the site.
///
/// The rate's type is a parameter: this type stores it and hands it back.
#[derive(Debug, PartialEq)]
pub struct CoincidentPeakRule<R> {
    intervals_per_year: u8,
    interval_minutes: Minutes,
    months: Vec<u8>,
    rate: R,
    pass_through: PassThrough,
}

impl<R> View for CoincidentPeakRule<R> {
    type V = (int, int, Seq<u8>, R, PassThrough);

    /// Intervals per year, interval minutes, months, rate, pass-through.
    closed spec fn view(&self) -> (int, int, Seq<u8>, R, PassThrough) {
        (
            self.intervals_per_year as int,
            self.interval_minutes@,
            self.months@,
            self.rate,
            self.pass_through,
        )
    }
}

impl<R: Clone> Clone for CoincidentPeakRule<R> {
    /// A copy with the same counts, months and pass-through; the rate is
    /// cloned by its own `Clone`.
    fn clone(&self) -> (copy: Self)
        ensures
            copy@.0 == self@.0,
            copy@.1 == self@.1,
            copy@.2 == self@.2,
            copy@.4 == self@.4,
    {
        proof {
            use_type_invariant(self);
        }
        CoincidentPeakRule {
            intervals_per_year: self.intervals_per_year,
            interval_minutes: self.interval_minutes,
            months: self.months.clone(),
            rate: self.rate.clone(),
            pass_through: self.pass_through,
        }
    }
}

impl<R> CoincidentPeakRule<R> {
    #[verifier::type_invariant]
    spec fn is_rule(self) -> bool {
        &&& self.intervals_per_year == 4 || self.intervals_per_year == 12
        &&& forall|k: int| 0 <= k < self.months@.len() ==> 1 <= #[trigger] self.months@[k] <= 12
    }

    /// `CoincidentPeakRule::new(...)` is that rule.
    ///
    /// # Errors
    /// [`TariffError::InvalidIntervalsPerYear`], or [`TariffError::InvalidMonth`]
    /// naming the first month outside `1..=12`.
    pub fn new(
        intervals_per_year: u8,
        interval_minutes: Minutes,
        months: Vec<u8>,
        rate: R,
        pass_through: PassThrough,
    ) -> (result: Result<Self, TariffError>)
        ensures
            !(intervals_per_year == 4 || intervals_per_year == 12) ==> result == Err::<
                Self,
                TariffError,
            >(TariffError::InvalidIntervalsPerYear(intervals_per_year)),
            (intervals_per_year == 4 || intervals_per_year == 12) && (exists|i: int|
                0 <= i < months@.len() && !(1 <= #[trigger] months@[i] <= 12)) ==> exists|i: int|
                first_bad_month(months@, i) && result == Err::<Self, TariffError>(
                    TariffError::InvalidMonth(months@[i]),
                ),
            (intervals_per_year == 4 || intervals_per_year == 12) && (forall|i: int|
                0 <= i < months@.len() ==> 1 <= #[trigger] months@[i] <= 12) ==> (result matches Ok(
                rule,
            ) && rule@ == (
                intervals_per_year as int,
                interval_minutes@,
                months@,
                rate,
                pass_through,
            )),
    {
        if intervals_per_year != 4 && intervals_per_year != 12 {
            return Err(TariffError::InvalidIntervalsPerYear(intervals_per_year));
        }
        let mut i: usize = 0;
        while i < months.len()
            invariant
                i <= months@.len(),
                intervals_per_year == 4 || intervals_per_year == 12,
                forall|k: int| 0 <= k < i ==> 1 <= #[trigger] months@[k] <= 12,
            decreases months@.len() - i,
        {
            let month = months[i];
            if month < 1 || month > 12 {
                assert(first_bad_month(months@, i as int));
                return Err(TariffError::InvalidMonth(month));
            }
            i = i + 1;
        }
        Ok(CoincidentPeakRule { intervals_per_year, interval_minutes, months, rate, pass_through })
    }

    /// 4 or 12.
    pub fn intervals_per_year(&self) -> (count: u8)
        ensures
            count == self@.0,
            count == 4 || count == 12,
    {
        proof {
            use_type_invariant(self);
        }
        self.intervals_per_year
    }

    /// Length of each named interval.
    pub fn interval_minutes(&self) -> (minutes: Minutes)
        ensures
            minutes@ == self@.1,
    {
        self.interval_minutes
    }

    /// Calendar months the rule names, each 1..=12.
    pub fn months(&self) -> (months: &[u8])
        ensures
            months@ == self@.2,
            forall|k: int| 0 <= k < months@.len() ==> 1 <= #[trigger] months@[k] <= 12,
    {
        proof {
            use_type_invariant(self);
        }
        self.months.as_slice()
    }

    /// Annual rate per kilowatt.
    pub fn rate(&self) -> (rate: &R)
        ensures
            *rate == self@.3,
    {
        &self.rate
    }

    /// Whether the charge is billed through.
    pub fn pass_through(&self) -> (pass: PassThrough)
        ensures
            pass == self@.4,
    {
        self.pass_through
    }

    /// Whether `interval_count` supplied kilowatt values can be billed under
    /// this rule, and the report line when the exposure is `$0`.
    ///
    /// `Ok(None)`: bill the mean of the values at the annual rate.
    /// `Ok(Some(line))`: the charge is not passed through; the exposure is
    /// `$0` and `line` says why.
    ///
    /// # Errors
    /// [`TariffError::IntervalCountMismatch`] when `interval_count` is not
    /// [`Self::intervals_per_year`].
    pub fn report_line_for(&self, interval_count: usize) -> (result: Result<
        Option<String>,
        TariffError,
    >)
        ensures
            interval_count != self@.0 ==> result == Err::<Option<String>, TariffError>(
                TariffError::IntervalCountMismatch {
                    expected: self@.0 as usize,
                    got: interval_count,
                },
            ),
            interval_count == self@.0 && self@.4 == PassThrough::NotPassedThrough ==> (
            result matches Ok(Some(line)) && line@ == not_passed_through_line()),
            interval_count == self@.0 && self@.4 != PassThrough::NotPassedThrough ==> result
                == Ok::<Option<String>, TariffError>(None),
    {
        let expected = self.intervals_per_year as usize;
        if interval_count != expected {
            return Err(TariffError::IntervalCountMismatch { expected, got: interval_count });
        }
        match self.pass_through {
            PassThrough::NotPassedThrough => Ok(
                Some("coincident-peak charge is not passed through; exposure is $0".to_owned()),
            ),
            _ => Ok(None),
        }
    }
}

} // verus!
