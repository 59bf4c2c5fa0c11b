//! Monthly demand charges: the charge's shape, and the history of prior peaks a
//! ratchet looks back over.
use crate::calendar::{month_index, YearMonth};
use crate::contract::{Minutes, TimeOfUse};
use crate::error::TariffError;
use std::collections::BTreeMap;
use vstd::prelude::*;

verus! {

broadcast use {vstd::std_specs::btree::group_btree_axioms, vstd::laws_cmp::group_laws_cmp};

/// A monthly demand charge: a rate per kilowatt-month, a 15- or 30-minute
/// window, an optional ratchet, and an optional time-of-use window.
///
/// The rate and ratchet types are parameters: this type stores them and
/// hands them back.
#[derive(Debug, PartialEq)]
pub struct DemandCharge<R, T> {
    rate: R,
    window: Minutes,
    ratchet: Option<T>,
    hours: Option<TimeOfUse>,
}

impl<R, T> View for DemandCharge<R, T> {
    type V = (R, int, Option<T>, Option<TimeOfUse>);

    /// Rate, window minutes, ratchet and time-of-use window.
    closed spec fn view(&self) -> (R, int, Option<T>, Option<TimeOfUse>) {
        (self.rate, self.window@, self.ratchet, self.hours)
    }
}

impl<R: Clone, T: Clone> Clone for DemandCharge<R, T> {
    /// A copy with the same window and time-of-use window; the rate and the
    /// ratchet are cloned by their own `Clone`.
    fn clone(&self) -> (copy: Self)
        ensures
            copy@.1 == self@.1,
            copy@.3 == self@.3,
    {
        proof {
            use_type_invariant(self);
        }
        let ratchet = match &self.ratchet {
            Some(ratchet) => Some(ratchet.clone()),
            None => None,
        };
        DemandCharge { rate: self.rate.clone(), window: self.window, ratchet, hours: self.hours }
    }
}

impl<R, T> DemandCharge<R, T> {
    #[verifier::type_invariant]
    spec fn is_demand_window(self) -> bool {
        self.window@ == 15 || self.window@ == 30
    }

    /// `DemandCharge::new(rate, window, ratchet, hours)` is that charge.
    ///
    /// `window` must be 15 or 30 ([`Minutes::demand_window`]); the rule is run
    /// again here so a [`Minutes::positive`] value cannot pass for a window.
    ///
    /// # Errors
    /// [`TariffError::InvalidWindow`] if `window` is not 15 or 30.
    pub fn new(rate: R, window: Minutes, ratchet: Option<T>, hours: Option<TimeOfUse>) -> (result:
        Result<Self, TariffError>)
        ensures
            window@ == 15 || window@ == 30 ==> (result matches Ok(charge) && charge@ == (
                rate,
                window@,
                ratchet,
                hours,
            )),
            !(window@ == 15 || window@ == 30) ==> result == Err::<Self, TariffError>(
                TariffError::InvalidWindow(window@ as u16),
            ),
    {
        let window = Minutes::demand_window(window.get())?;
        Ok(DemandCharge { rate, window, ratchet, hours })
    }

    /// Rate per kilowatt-month.
    pub fn rate(&self) -> (rate: &R)
        ensures
            *rate == self@.0,
    {
        &self.rate
    }

    /// 15 or 30 minutes.
    pub fn window(&self) -> (window: Minutes)
        ensures
            window@ == self@.1,
            window@ == 15 || window@ == 30,
    {
        proof {
            use_type_invariant(self);
        }
        self.window
    }

    /// Ratchet, when the contract has one.
    pub fn ratchet(&self) -> (ratchet: Option<T>) where T: Copy
        ensures
            ratchet == self@.2,
    {
        self.ratchet
    }

    /// Time-of-use window, when the contract has one.
    pub fn hours(&self) -> (hours: Option<TimeOfUse>)
        ensures
            hours == self@.3,
    {
        self.hours
    }
}

/// The peaks recorded for the `n` months before month number `from`
/// (see [`month_index`]), nearest month first; months with no record are skipped.
pub open spec fn lookback<K>(peaks: Map<i64, K>, from: int, n: nat) -> Seq<K>
    decreases n,
{
    if n == 0 {
        Seq::empty()
    } else if peaks.contains_key((from - 1) as i64) {
        seq![peaks[(from - 1) as i64]] + lookback(peaks, from - 1, (n - 1) as nat)
    } else {
        lookback(peaks, from - 1, (n - 1) as nat)
    }
}

/// Recording a peak for a month that already has one replaces it: the
/// history holds only the later peak.
pub proof fn lemma_later_peak_replaces<K>(peaks: Map<i64, K>, month: (int, int), earlier: K, later: K)
    ensures
        peaks.insert(month_key(month), earlier).insert(month_key(month), later) == peaks.insert(
            month_key(month),
            later,
        ),
{
    assert(peaks.insert(month_key(month), earlier).insert(month_key(month), later) =~= peaks.insert(
        month_key(month),
        later,
    ));
}

/// `peak` is the recorded peak of one of the `n` months before month number `from`.
pub open spec fn prior_month_peak<K>(peaks: Map<i64, K>, from: int, n: nat, peak: K) -> bool {
    exists|m: int|
        #![trigger peaks.contains_key(m as i64)]
        from - n <= m < from && peaks.contains_key(m as i64) && peak == peaks[m as i64]
}

/// The lookback yields at most `n` peaks, each the recorded peak of one of
/// the `n` months before month number `from`.
pub proof fn lemma_lookback_reads_prior_months<K>(peaks: Map<i64, K>, from: int, n: nat)
    ensures
        lookback(peaks, from, n).len() <= n,
        forall|i: int|
            0 <= i < lookback(peaks, from, n).len() ==> prior_month_peak(
                peaks,
                from,
                n,
                #[trigger] lookback(peaks, from, n)[i],
            ),
    decreases n,
{
    if n > 0 {
        lemma_lookback_reads_prior_months(peaks, from - 1, (n - 1) as nat);
        let rest = lookback(peaks, from - 1, (n - 1) as nat);
        let all = lookback(peaks, from, n);
        assert forall|i: int| 0 <= i < all.len() implies prior_month_peak(
            peaks,
            from,
            n,
            #[trigger] all[i],
        ) by {
            let j = if peaks.contains_key((from - 1) as i64) {
                i - 1
            } else {
                i
            };
            if peaks.contains_key((from - 1) as i64) && i == 0 {
                let m = from - 1;
                assert(from - n <= m < from && peaks.contains_key(m as i64) && all[i] == peaks[m
                    as i64]);
            } else {
                assert(all[i] == rest[j]);
                assert(prior_month_peak(peaks, from - 1, (n - 1) as nat, rest[j]));
                let m = choose|m: int|
                    #![trigger peaks.contains_key(m as i64)]
                    from - 1 - (n - 1) <= m < from - 1 && peaks.contains_key(m as i64) && rest[j]
                        == peaks[m as i64];
                assert(from - n <= m < from && peaks.contains_key(m as i64) && all[i] == peaks[m
                    as i64]);
            }
        }
    }
}

/// Every month among the `n` before month number `from` that has a recorded
/// peak contributes that peak to the lookback: a month with no record is
/// skipped, and the walk goes on past it.
pub proof fn lemma_lookback_keeps_every_recorded_month<K>(
    peaks: Map<i64, K>,
    from: int,
    n: nat,
    m: int,
)
    requires
        from - n <= m < from,
        peaks.contains_key(m as i64),
    ensures
        exists|i: int|
            0 <= i < lookback(peaks, from, n).len() && #[trigger] lookback(peaks, from, n)[i]
                == peaks[m as i64],
    decreases n,
{
    let all = lookback(peaks, from, n);
    if m == from - 1 {
        assert(all[0] == peaks[m as i64]);
    } else {
        lemma_lookback_keeps_every_recorded_month(peaks, from - 1, (n - 1) as nat, m);
        let rest = lookback(peaks, from - 1, (n - 1) as nat);
        let i = choose|i: int| 0 <= i < rest.len() && #[trigger] rest[i] == peaks[m as i64];
        if peaks.contains_key((from - 1) as i64) {
            assert(all[i + 1] == rest[i]);
        } else {
            assert(all[i] == rest[i]);
        }
    }
}

/// When each of the `n` months before month number `from` has a recorded
/// peak, the lookback is exactly those `n` peaks, nearest month first.
pub proof fn lemma_lookback_full_history<K>(peaks: Map<i64, K>, from: int, n: nat)
    requires
        forall|m: int| from - n <= m < from ==> #[trigger] peaks.contains_key(m as i64),
    ensures
        lookback(peaks, from, n).len() == n,
        forall|j: int|
            0 <= j < n ==> #[trigger] lookback(peaks, from, n)[j] == peaks[(from - 1 - j) as i64],
    decreases n,
{
    if n > 0 {
        assert(peaks.contains_key((from - 1) as i64));
        lemma_lookback_full_history(peaks, from - 1, (n - 1) as nat);
        let all = lookback(peaks, from, n);
        let rest = lookback(peaks, from - 1, (n - 1) as nat);
        assert forall|j: int| 0 <= j < n implies #[trigger] all[j] == peaks[(from - 1 - j) as i64] by {
            if j > 0 {
                assert(all[j] == rest[j - 1]);
                assert(rest[j - 1] == peaks[(from - 1 - 1 - (j - 1)) as i64]);
            }
        }
    }
}

/// The map key of a month: its [`month_index`].
pub open spec fn month_key(month: (int, int)) -> i64 {
    month_index(month) as i64
}

/// Prior months' demand peaks, keyed by month.
///
/// A [`BTreeMap`] so the same history always walks in the same order. The
/// peak type is a parameter: this type stores peaks and hands them back.
#[derive(Debug, Clone, PartialEq)]
pub struct DemandHistory<K> {
    peaks: BTreeMap<i64, K>,
}

impl<K> View for DemandHistory<K> {
    type V = Map<i64, K>;

    /// Peaks by month key.
    closed spec fn view(&self) -> Map<i64, K> {
        self.peaks@
    }
}

fn key_of(month: YearMonth) -> (key: i64)
    ensures
        key == month_key(month@),
        key == month_index(month@),
{
    month.year() as i64 * 12 + month.month() as i64 - 1
}

impl<K> Default for DemandHistory<K> {
    /// Empty history.
    fn default() -> (history: Self)
        ensures
            history@ == Map::<i64, K>::empty(),
    {
        Self::new()
    }
}

impl<K> DemandHistory<K> {
    /// Empty history.
    pub fn new() -> (history: Self)
        ensures
            history@ == Map::<i64, K>::empty(),
    {
        DemandHistory { peaks: BTreeMap::new() }
    }

    /// `history.with_peak(month, peak)` is this history plus that month's peak.
    /// A later call for the same month replaces the peak.
    pub fn with_peak(self, month: YearMonth, peak: K) -> (history: Self)
        ensures
            history@ == self@.insert(month_key(month@), peak),
    {
        let mut peaks = self.peaks;
        peaks.insert(key_of(month), peak);
        DemandHistory { peaks }
    }

    /// The recorded peaks among the `n` months immediately before `month`,
    /// nearest month first. Missing months contribute nothing.
    ///
    /// `n` may not reach back past January of year `i32::MIN`.
    pub fn peaks_before(&self, month: YearMonth, n: u32) -> (peaks: Vec<K>) where K: Copy
        requires
            month_index(month@) - n >= month_index((i32::MIN as int, 1)),
        ensures
            peaks@ == lookback(self@, month_index(month@), n as nat),
            forall|m: int|
                month_index(month@) - n <= m < month_index(month@) && #[trigger] self@.contains_key(
                    m as i64,
                ) ==> peaks@.contains(self@[m as i64]),
    {
        let mut found: Vec<K> = Vec::new();
        let mut cursor = month;
        let mut step: u32 = 0;
        while step < n
            invariant
                step <= n,
                month_index(cursor@) == month_index(month@) - step,
                month_index(month@) - n >= month_index((i32::MIN as int, 1)),
                found@ + lookback(self@, month_index(cursor@), (n - step) as nat) == lookback(
                    self@,
                    month_index(month@),
                    n as nat,
                ),
            decreases n - step,
        {
            proof {
                let c = cursor@;
                if c.0 == i32::MIN && c.1 == 1 {
                    assert(month_index(c) == month_index((i32::MIN as int, 1)));
                }
            }
            let ghost from = month_index(cursor@);
            cursor = cursor.pred();
            let key = key_of(cursor);
            proof {
                assert(key == (from - 1) as i64);
            }
            match self.peaks.get(&key) {
                Some(peak) => {
                    proof {
                        assert(found@.push(*peak) + lookback(self@, from - 1, (n - step - 1) as nat)
                            =~= found@ + lookback(self@, from, (n - step) as nat));
                    }
                    found.push(*peak);
                },
                None => {},
            }
            step = step + 1;
        }
        proof {
            assert(found@ + lookback(self@, month_index(cursor@), 0) =~= found@);
            assert forall|m: int|
                month_index(month@) - n <= m < month_index(month@) && #[trigger] self@.contains_key(
                    m as i64,
                ) implies found@.contains(self@[m as i64]) by {
                lemma_lookback_keeps_every_recorded_month(self@, month_index(month@), n as nat, m);
            }
        }
        found
    }
}

} // verus!
