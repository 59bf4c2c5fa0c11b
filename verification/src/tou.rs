//! Time-of-use energy windows in civil local time.
//!
//! This module does not convert UTC and does not embed a time zone. The caller
//! supplies the month, the ISO weekday, and the minute of day.
use crate::error::TariffError;
use vstd::prelude::*;
use vstd::string::*;

verus! {

/// Civil local time: month, ISO weekday, minute of day.
///
/// Month is 1..=12. Weekday is ISO-8601: 1 is Monday, 7 is Sunday. Minute of
/// day is 0..=1439. This crate does not convert UTC.
#[derive(Debug, Clone, Copy, PartialEq, Eq, Structural)]
pub struct CivilMinute {
    month: u8,
    iso_weekday: u8,
    minute_of_day: u16,
}

impl View for CivilMinute {
    type V = (int, int, int);

    /// Month, ISO weekday and minute of day.
    closed spec fn view(&self) -> (int, int, int) {
        (self.month as int, self.iso_weekday as int, self.minute_of_day as int)
    }
}

impl CivilMinute {
    #[verifier::type_invariant]
    spec fn is_civil_time(self) -> bool {
        1 <= self.month <= 12 && 1 <= self.iso_weekday <= 7 && self.minute_of_day < 1440
    }

    /// `CivilMinute::new(month, iso_weekday, minute_of_day)` is that local time.
    /// Does not read a clock.
    ///
    /// # Errors
    /// [`TariffError::InvalidMonth`], [`TariffError::InvalidWeekday`], or
    /// [`TariffError::InvalidMinute`], checked in that order.
    pub fn new(month: u8, iso_weekday: u8, minute_of_day: u16) -> (result: Result<
        Self,
        TariffError,
    >)
        ensures
            !(1 <= month <= 12) ==> result == Err::<Self, TariffError>(
                TariffError::InvalidMonth(month),
            ),
            1 <= month <= 12 && !(1 <= iso_weekday <= 7) ==> result == Err::<Self, TariffError>(
                TariffError::InvalidWeekday(iso_weekday),
            ),
            1 <= month <= 12 && 1 <= iso_weekday <= 7 && minute_of_day >= 1440 ==> result == Err::<
                Self,
                TariffError,
            >(TariffError::InvalidMinute(minute_of_day)),
            1 <= month <= 12 && 1 <= iso_weekday <= 7 && minute_of_day < 1440 ==> (result matches Ok(
                local,
            ) && local@ == (month as int, iso_weekday as int, minute_of_day as int)),
    {
        if !(1 <= month && month <= 12) {
            return Err(TariffError::InvalidMonth(month));
        }
        if !(1 <= iso_weekday && iso_weekday <= 7) {
            return Err(TariffError::InvalidWeekday(iso_weekday));
        }
        if minute_of_day >= 1440 {
            return Err(TariffError::InvalidMinute(minute_of_day));
        }
        Ok(CivilMinute { month, iso_weekday, minute_of_day })
    }

    /// Month number 1..=12.
    pub fn month(self) -> (month: u8)
        ensures
            month == self@.0,
            1 <= month <= 12,
    {
        proof {
            use_type_invariant(&self);
        }
        self.month
    }

    /// ISO weekday, 1 = Monday ... 7 = Sunday.
    pub fn iso_weekday(self) -> (weekday: u8)
        ensures
            weekday == self@.1,
            1 <= weekday <= 7,
    {
        proof {
            use_type_invariant(&self);
        }
        self.iso_weekday
    }

    /// Minute of the local day, 0..=1439.
    pub fn minute_of_day(self) -> (minute: u16)
        ensures
            minute == self@.2,
            minute < 1440,
    {
        proof {
            use_type_invariant(&self);
        }
        self.minute_of_day
    }
}

/// A time-of-use window seen as data: name, months, ISO weekdays, and the
/// minutes `start_min..end_min` of the local day it covers.
pub type WindowView = (Seq<char>, Seq<u8>, Seq<u8>, int, int);

/// The first position `j` of `codes` whose code is outside `lo..=hi` or
/// repeats an earlier one.
pub open spec fn first_code_problem(codes: Seq<u8>, lo: int, hi: int) -> Option<int>
    decreases codes.len(),
{
    if codes.len() == 0 {
        None
    } else {
        match first_code_problem(codes.drop_last(), lo, hi) {
            Some(j) => Some(j),
            None => if !(lo <= codes.last() <= hi) || codes.drop_last().contains(codes.last()) {
                Some(codes.len() - 1)
            } else {
                None
            },
        }
    }
}

/// Why `TouPeriod::new` refuses these parts, in the order it checks them;
/// `None` when it accepts them (before the rate is judged).
pub open spec fn window_problem(
    name: Seq<char>,
    months: Seq<u8>,
    weekdays: Seq<u8>,
    start_min: int,
    end_min: int,
) -> Option<TariffError> {
    if name.len() == 0 {
        Some(TariffError::EmptyTouName)
    } else if months.len() == 0 {
        Some(TariffError::EmptyTouMonths)
    } else if weekdays.len() == 0 {
        Some(TariffError::EmptyTouWeekdays)
    } else if let Some(j) = first_code_problem(months, 1, 12) {
        if !(1 <= months[j] <= 12) {
            Some(TariffError::InvalidMonth(months[j]))
        } else {
            Some(TariffError::DuplicateTouMonth(months[j]))
        }
    } else if let Some(j) = first_code_problem(weekdays, 1, 7) {
        if !(1 <= weekdays[j] <= 7) {
            Some(TariffError::InvalidWeekday(weekdays[j]))
        } else {
            Some(TariffError::DuplicateTouWeekday(weekdays[j]))
        }
    } else if start_min >= 1440 {
        Some(TariffError::InvalidMinute(start_min as u16))
    } else if end_min > 1440 {
        Some(TariffError::InvalidMinute(end_min as u16))
    } else if start_min >= end_min {
        Some(TariffError::EmptyTouWindow)
    } else {
        None
    }
}

/// Some code appears in both `left` and `right`.
pub open spec fn share_any(left: Seq<u8>, right: Seq<u8>) -> bool {
    exists|i: int| 0 <= i < left.len() && right.contains(#[trigger] left[i])
}

/// Window `w` contains civil time `local` (month, weekday, minute of day).
pub open spec fn window_covers(w: WindowView, local: (int, int, int)) -> bool {
    &&& exists|i: int| 0 <= i < w.1.len() && w.1[i] == local.0
    &&& exists|i: int| 0 <= i < w.2.len() && w.2[i] == local.1
    &&& w.3 <= local.2 < w.4
}

/// Two windows share a month, a weekday and a minute of the day.
pub open spec fn windows_overlap(a: WindowView, b: WindowView) -> bool {
    share_any(a.1, b.1) && share_any(a.2, b.2) && a.3 < b.4 && b.3 < a.4
}

/// No two of the first `n` windows overlap.
pub open spec fn disjoint_upto(windows: Seq<WindowView>, n: int) -> bool {
    forall|a: int, b: int|
        0 <= b < a < n ==> !windows_overlap(#[trigger] windows[a], #[trigger] windows[b])
}

/// A civil time that two windows both contain shows that they overlap; so in
/// a set of windows no two of which overlap, at most one contains any given
/// civil time.
pub proof fn lemma_disjoint_windows_cover_at_most_once(
    windows: Seq<WindowView>,
    local: (int, int, int),
    i: int,
    j: int,
)
    requires
        disjoint_upto(windows, windows.len() as int),
        0 <= i < windows.len(),
        0 <= j < windows.len(),
        window_covers(windows[i], local),
        window_covers(windows[j], local),
    ensures
        i == j,
{
    if i != j {
        let (a, b) = if i > j { (i, j) } else { (j, i) };
        let wa = windows[a];
        let wb = windows[b];
        let ma = choose|k: int| 0 <= k < wa.1.len() && wa.1[k] == local.0;
        let mb = choose|k: int| 0 <= k < wb.1.len() && wb.1[k] == local.0;
        let da = choose|k: int| 0 <= k < wa.2.len() && wa.2[k] == local.1;
        let db = choose|k: int| 0 <= k < wb.2.len() && wb.2[k] == local.1;
        assert(wb.1[mb] == wa.1[ma]);
        assert(wb.1.contains(wa.1[ma]));
        assert(wb.2[db] == wa.2[da]);
        assert(wb.2.contains(wa.2[da]));
        assert(windows_overlap(wa, wb));
        assert(!windows_overlap(windows[a], windows[b]));
    }
}

/// Two non-empty windows overlap exactly when some civil time (month,
/// weekday, minute of day) lies in both. Windows that only touch, one ending
/// at the minute the other starts, share no minute and do not overlap.
pub proof fn lemma_overlap_is_shared_civil_time(a: WindowView, b: WindowView)
    requires
        a.3 < a.4,
        b.3 < b.4,
    ensures
        windows_overlap(a, b) <==> exists|local: (int, int, int)|
            window_covers(a, local) && window_covers(b, local),
{
    if windows_overlap(a, b) {
        let i = choose|i: int| 0 <= i < a.1.len() && b.1.contains(#[trigger] a.1[i]);
        let j = choose|j: int| 0 <= j < a.2.len() && b.2.contains(#[trigger] a.2[j]);
        let k = choose|k: int| 0 <= k < b.1.len() && b.1[k] == a.1[i];
        let l = choose|l: int| 0 <= l < b.2.len() && b.2[l] == a.2[j];
        let t = if a.3 < b.3 {
            b.3
        } else {
            a.3
        };
        let local = (a.1[i] as int, a.2[j] as int, t);
        assert(a.1[i] == local.0 && a.2[j] == local.1);
        assert(b.1[k] == local.0 && b.2[l] == local.1);
        assert(window_covers(a, local));
        assert(window_covers(b, local));
    }
    if exists|local: (int, int, int)| window_covers(a, local) && window_covers(b, local) {
        let local = choose|local: (int, int, int)|
            window_covers(a, local) && window_covers(b, local);
        let i = choose|i: int| 0 <= i < a.1.len() && a.1[i] == local.0;
        let k = choose|k: int| 0 <= k < b.1.len() && b.1[k] == local.0;
        let j = choose|j: int| 0 <= j < a.2.len() && a.2[j] == local.1;
        let l = choose|l: int| 0 <= l < b.2.len() && b.2[l] == local.1;
        assert(b.1[k] == a.1[i]);
        assert(b.1.contains(a.1[i]));
        assert(b.2[l] == a.2[j]);
        assert(b.2.contains(a.2[j]));
        assert(share_any(a.1, b.1));
        assert(share_any(a.2, b.2));
    }
}

/// Overlap does not depend on which window is named first.
pub proof fn lemma_overlap_symmetric(a: WindowView, b: WindowView)
    ensures
        windows_overlap(a, b) == windows_overlap(b, a),
{
    lemma_share_any_symmetric(a.1, b.1);
    lemma_share_any_symmetric(a.2, b.2);
}

proof fn lemma_share_any_symmetric(left: Seq<u8>, right: Seq<u8>)
    ensures
        share_any(left, right) == share_any(right, left),
{
    if share_any(left, right) {
        let i = choose|i: int| 0 <= i < left.len() && right.contains(#[trigger] left[i]);
        let k = choose|k: int| 0 <= k < right.len() && right[k] == left[i];
        assert(left.contains(right[k]));
    }
    if share_any(right, left) {
        let i = choose|i: int| 0 <= i < right.len() && left.contains(#[trigger] right[i]);
        let k = choose|k: int| 0 <= k < left.len() && left[k] == right[i];
        assert(right.contains(left[k]));
    }
}

/// A list of windows passes the schedule check exactly when no civil time
/// lies in two of its windows; so whether a list is accepted does not depend
/// on the order its windows are listed in.
pub proof fn lemma_disjoint_means_no_shared_civil_time(windows: Seq<WindowView>)
    requires
        forall|i: int| 0 <= i < windows.len() ==> (#[trigger] windows[i]).3 < windows[i].4,
    ensures
        disjoint_upto(windows, windows.len() as int) <==> forall|i: int, j: int, local: (int, int, int)|
            #![trigger window_covers(windows[i], local), window_covers(windows[j], local)]
            0 <= i < windows.len() && 0 <= j < windows.len() && i != j && window_covers(
                windows[i],
                local,
            ) ==> !window_covers(windows[j], local),
{
    let n = windows.len() as int;
    if disjoint_upto(windows, n) {
        assert forall|i: int, j: int, local: (int, int, int)|
            #![trigger window_covers(windows[i], local), window_covers(windows[j], local)]
            0 <= i < n && 0 <= j < n && i != j && window_covers(windows[i], local) implies !window_covers(
                windows[j],
                local,
            ) by {
            if window_covers(windows[j], local) {
                lemma_disjoint_windows_cover_at_most_once(windows, local, i, j);
            }
        }
    }
    if forall|i: int, j: int, local: (int, int, int)|
        #![trigger window_covers(windows[i], local), window_covers(windows[j], local)]
        0 <= i < n && 0 <= j < n && i != j && window_covers(windows[i], local) ==> !window_covers(
            windows[j],
            local,
        ) {
        assert forall|a: int, b: int| 0 <= b < a < n implies !windows_overlap(
            #[trigger] windows[a],
            #[trigger] windows[b],
        ) by {
            lemma_overlap_is_shared_civil_time(windows[a], windows[b]);
            if windows_overlap(windows[a], windows[b]) {
                let local = choose|local: (int, int, int)|
                    window_covers(windows[a], local) && window_covers(windows[b], local);
                assert(window_covers(windows[a], local));
                assert(!window_covers(windows[b], local));
            }
        }
    }
}

fn contains_code(codes: &[u8], code: u8) -> (found: bool)
    ensures
        found == codes@.contains(code),
{
    let mut i: usize = 0;
    while i < codes.len()
        invariant
            i <= codes@.len(),
            forall|k: int| 0 <= k < i ==> codes@[k] != code,
        decreases codes@.len() - i,
    {
        if codes[i] == code {
            assert(codes@[i as int] == code);
            return true;
        }
        i = i + 1;
    }
    false
}

fn contains_code_before(codes: &Vec<u8>, end: usize, code: u8) -> (found: bool)
    requires
        end <= codes@.len(),
    ensures
        found == codes@.take(end as int).contains(code),
{
    let mut i: usize = 0;
    while i < end
        invariant
            i <= end <= codes@.len(),
            forall|k: int| 0 <= k < i ==> codes@[k] != code,
        decreases end - i,
    {
        if codes[i] == code {
            assert(codes@.take(end as int)[i as int] == code);
            return true;
        }
        i = i + 1;
    }
    false
}

fn first_problem(codes: &Vec<u8>, lo: u8, hi: u8) -> (found: Option<usize>)
    ensures
        found is None <==> first_code_problem(codes@, lo as int, hi as int) is None,
        found matches Some(j) ==> j < codes@.len() && first_code_problem(
            codes@,
            lo as int,
            hi as int,
        ) == Some(j as int),
{
    let mut i: usize = 0;
    while i < codes.len()
        invariant
            i <= codes@.len(),
            first_code_problem(codes@.take(i as int), lo as int, hi as int) is None,
        decreases codes@.len() - i,
    {
        let code = codes[i];
        let bad = code < lo || code > hi || contains_code_before(codes, i, code);
        proof {
            let prefix = codes@.take(i + 1);
            assert(prefix.drop_last() =~= codes@.take(i as int));
            assert(prefix.last() == code);
        }
        if bad {
            proof {
                lemma_first_problem_extends(codes@, (i + 1) as int, lo as int, hi as int);
            }
            return Some(i);
        }
        i = i + 1;
    }
    proof {
        assert(codes@.take(codes@.len() as int) =~= codes@);
    }
    None
}

proof fn lemma_first_problem_extends(codes: Seq<u8>, n: int, lo: int, hi: int)
    requires
        0 <= n <= codes.len(),
        first_code_problem(codes.take(n), lo, hi) is Some,
    ensures
        first_code_problem(codes, lo, hi) == first_code_problem(codes.take(n), lo, hi),
    decreases codes.len() - n,
{
    if n < codes.len() {
        assert(codes.take(n + 1).drop_last() =~= codes.take(n));
        lemma_first_problem_extends(codes, n + 1, lo, hi);
    } else {
        assert(codes.take(n) =~= codes);
    }
}

/// One time-of-use window (which local times it covers) and its energy rate.
///
/// The rate's type is a parameter: this type stores it and hands it back, and
/// does no arithmetic with it.
#[derive(Debug, PartialEq)]
pub struct TouPeriod<R> {
    name: String,
    months: Vec<u8>,
    weekdays: Vec<u8>,
    start_min: u16,
    end_min: u16,
    rate: R,
}

impl<R> View for TouPeriod<R> {
    type V = WindowView;

    /// Name, months, weekdays, start minute and end minute.
    closed spec fn view(&self) -> WindowView {
        (self.name@, self.months@, self.weekdays@, self.start_min as int, self.end_min as int)
    }
}

impl<R: Clone> Clone for TouPeriod<R> {
    /// A copy with the same window; the rate is cloned by its own `Clone`.
    fn clone(&self) -> (copy: Self)
        ensures
            copy@ == self@,
    {
        proof {
            use_type_invariant(self);
        }
        TouPeriod {
            name: self.name.clone(),
            months: self.months.clone(),
            weekdays: self.weekdays.clone(),
            start_min: self.start_min,
            end_min: self.end_min,
            rate: self.rate.clone(),
        }
    }
}

impl<R> TouPeriod<R> {
    #[verifier::type_invariant]
    spec fn is_window(self) -> bool {
        window_problem(self@.0, self@.1, self@.2, self@.3, self@.4) is None
    }

    /// The rate this period carries.
    pub closed spec fn rate_of(&self) -> R {
        self.rate
    }

    /// `TouPeriod::new(name, months, weekdays, start_min, end_min, rate)` is that
    /// window.
    ///
    /// `start_min` is inclusive and `end_min` is exclusive, both on a single
    /// local day (`end_min` may be 1440). The window does not wrap past midnight.
    /// Months are 1..=12 and weekdays 1..=7, each listed once. The rate is
    /// stored as given; its legality is the caller's to judge.
    ///
    /// # Errors
    /// [`TariffError::EmptyTouName`], [`TariffError::EmptyTouMonths`],
    /// [`TariffError::EmptyTouWeekdays`], [`TariffError::InvalidMonth`],
    /// [`TariffError::DuplicateTouMonth`], [`TariffError::InvalidWeekday`],
    /// [`TariffError::DuplicateTouWeekday`], [`TariffError::InvalidMinute`], or
    /// [`TariffError::EmptyTouWindow`], the first that applies in that order.
    pub fn new(
        name: &str,
        months: Vec<u8>,
        weekdays: Vec<u8>,
        start_min: u16,
        end_min: u16,
        rate: R,
    ) -> (result: Result<Self, TariffError>)
        ensures
            match window_problem(
                name@,
                months@,
                weekdays@,
                start_min as int,
                end_min as int,
            ) {
                Some(problem) => result == Err::<Self, TariffError>(problem),
                None => result matches Ok(period) && period@ == (
                    name@,
                    months@,
                    weekdays@,
                    start_min as int,
                    end_min as int,
                ) && period.rate_of() == rate,
            },
    {
        if name.is_empty() {
            return Err(TariffError::EmptyTouName);
        }
        if months.len() == 0 {
            return Err(TariffError::EmptyTouMonths);
        }
        if weekdays.len() == 0 {
            return Err(TariffError::EmptyTouWeekdays);
        }
        if let Some(j) = first_problem(&months, 1, 12) {
            let month = months[j];
            if month < 1 || month > 12 {
                return Err(TariffError::InvalidMonth(month));
            }
            return Err(TariffError::DuplicateTouMonth(month));
        }
        if let Some(j) = first_problem(&weekdays, 1, 7) {
            let weekday = weekdays[j];
            if weekday < 1 || weekday > 7 {
                return Err(TariffError::InvalidWeekday(weekday));
            }
            return Err(TariffError::DuplicateTouWeekday(weekday));
        }
        if start_min >= 1440 {
            return Err(TariffError::InvalidMinute(start_min));
        }
        if end_min > 1440 {
            return Err(TariffError::InvalidMinute(end_min));
        }
        if start_min >= end_min {
            return Err(TariffError::EmptyTouWindow);
        }
        Ok(TouPeriod { name: name.to_owned(), months, weekdays, start_min, end_min, rate })
    }

    /// Period name.
    pub fn name(&self) -> (name: &str)
        ensures
            name@ == self@.0,
    {
        self.name.as_str()
    }

    /// Months 1..=12 this period applies in, in the order stored.
    pub fn months(&self) -> (months: &[u8])
        ensures
            months@ == self@.1,
    {
        self.months.as_slice()
    }

    /// ISO weekdays this period applies on, in the order stored.
    pub fn weekdays(&self) -> (weekdays: &[u8])
        ensures
            weekdays@ == self@.2,
    {
        self.weekdays.as_slice()
    }

    /// Inclusive start minute.
    pub fn start_min(&self) -> (minute: u16)
        ensures
            minute == self@.3,
    {
        self.start_min
    }

    /// Exclusive end minute.
    pub fn end_min(&self) -> (minute: u16)
        ensures
            minute == self@.4,
    {
        self.end_min
    }

    /// Rate inside this window.
    pub fn rate(&self) -> (rate: &R)
        ensures
            *rate == self.rate_of(),
    {
        &self.rate
    }

    fn matches(&self, local: CivilMinute) -> (covers: bool)
        ensures
            covers == window_covers(self@, local@),
    {
        let month = local.month();
        let weekday = local.iso_weekday();
        let minute = local.minute_of_day();
        let in_month = contains_code(self.months.as_slice(), month);
        let on_day = contains_code(self.weekdays.as_slice(), weekday);
        proof {
            if in_month {
                let k = choose|k: int| 0 <= k < self@.1.len() && self@.1[k] == month;
                assert(self@.1[k] == local@.0);
            }
            if on_day {
                let k = choose|k: int| 0 <= k < self@.2.len() && self@.2[k] == weekday;
                assert(self@.2[k] == local@.1);
            }
        }
        in_month && on_day && self.start_min <= minute && minute < self.end_min
    }
}

fn shares_any(left: &[u8], right: &[u8]) -> (shared: bool)
    ensures
        shared == share_any(left@, right@),
{
    let mut i: usize = 0;
    while i < left.len()
        invariant
            i <= left@.len(),
            forall|k: int| 0 <= k < i ==> !right@.contains(#[trigger] left@[k]),
        decreases left@.len() - i,
    {
        if contains_code(right, left[i]) {
            return true;
        }
        i = i + 1;
    }
    false
}

fn periods_overlap<R>(left: &TouPeriod<R>, right: &TouPeriod<R>) -> (overlap: bool)
    ensures
        overlap == windows_overlap(left@, right@),
{
    shares_any(left.months.as_slice(), right.months.as_slice()) && shares_any(
        left.weekdays.as_slice(),
        right.weekdays.as_slice(),
    ) && left.start_min < right.end_min && right.start_min < left.end_min
}

/// Some window of `windows` contains civil time `local`.
pub open spec fn some_window_covers(windows: Seq<WindowView>, local: (int, int, int)) -> bool {
    exists|i: int| 0 <= i < windows.len() && window_covers(#[trigger] windows[i], local)
}

/// `(later, earlier)` is the first overlapping pair `TouSchedule::new` meets:
/// it walks each window in order and compares it with every earlier one, in order.
pub open spec fn first_overlap(windows: Seq<WindowView>, later: int, earlier: int) -> bool {
    &&& 0 <= earlier < later < windows.len()
    &&& windows_overlap(windows[later], windows[earlier])
    &&& disjoint_upto(windows, later)
    &&& forall|k: int| 0 <= k < earlier ==> !windows_overlap(windows[later], #[trigger] windows[k])
}

/// A non-empty set of time-of-use periods no two of which overlap.
#[derive(Debug, PartialEq)]
pub struct TouSchedule<R> {
    periods: Vec<TouPeriod<R>>,
}

impl<R> View for TouSchedule<R> {
    type V = Seq<WindowView>;

    /// The windows of the periods, in schedule order.
    closed spec fn view(&self) -> Seq<WindowView> {
        self.periods@.map_values(|p: TouPeriod<R>| p@)
    }
}

impl<R: Clone> Clone for TouSchedule<R> {
    /// A copy with the same windows; each rate is cloned by its own `Clone`.
    fn clone(&self) -> (copy: Self)
        ensures
            copy@ == self@,
    {
        proof {
            use_type_invariant(self);
        }
        let mut periods: Vec<TouPeriod<R>> = Vec::new();
        let mut i: usize = 0;
        while i < self.periods.len()
            invariant
                i <= self.periods@.len(),
                periods@.len() == i,
                forall|k: int| 0 <= k < i ==> #[trigger] periods@[k]@ == self.periods@[k]@,
            decreases self.periods@.len() - i,
        {
            periods.push(self.periods[i].clone());
            i = i + 1;
        }
        assert(periods@.map_values(|p: TouPeriod<R>| p@) =~= self.periods@.map_values(
            |p: TouPeriod<R>| p@,
        ));
        TouSchedule { periods }
    }
}

impl<R> TouSchedule<R> {
    #[verifier::type_invariant]
    spec fn is_schedule(self) -> bool {
        self@.len() > 0 && disjoint_upto(self@, self@.len() as int)
    }

    /// The rate of the period at position `i`.
    pub closed spec fn rate_of(&self, i: int) -> R {
        self.periods@[i].rate_of()
    }

    /// `TouSchedule::new(periods)` is that schedule.
    ///
    /// # Errors
    /// [`TariffError::EmptyTouSchedule`], or
    /// [`TariffError::OverlappingTouPeriods`] naming the first overlapping pair,
    /// earlier period first.
    pub fn new(periods: Vec<TouPeriod<R>>) -> (result: Result<Self, TariffError>)
        ensures
            ({
                let windows = periods@.map_values(|p: TouPeriod<R>| p@);
                &&& windows.len() == 0 ==> result == Err::<Self, TariffError>(
                    TariffError::EmptyTouSchedule,
                )
                &&& windows.len() > 0 && disjoint_upto(windows, windows.len() as int) ==> (
                result matches Ok(schedule) && schedule@ == windows && forall|i: int|
                    0 <= i < windows.len() ==> #[trigger] schedule.rate_of(i)
                        == periods@[i].rate_of())
                &&& windows.len() > 0 && !disjoint_upto(windows, windows.len() as int) ==> (
                result matches Err(TariffError::OverlappingTouPeriods { first, second })
                    && exists|later: int, earlier: int|
                    first_overlap(windows, later, earlier) && first@ == windows[earlier].0
                        && second@ == windows[later].0)
            }),
    {
        let ghost windows = periods@.map_values(|p: TouPeriod<R>| p@);
        if periods.len() == 0 {
            return Err(TariffError::EmptyTouSchedule);
        }
        let mut index: usize = 0;
        while index < periods.len()
            invariant
                index <= periods@.len(),
                windows == periods@.map_values(|p: TouPeriod<R>| p@),
                disjoint_upto(windows, index as int),
            decreases periods@.len() - index,
        {
            let mut other: usize = 0;
            while other < index
                invariant
                    other <= index < periods@.len(),
                    windows == periods@.map_values(|p: TouPeriod<R>| p@),
                    disjoint_upto(windows, index as int),
                    forall|k: int|
                        0 <= k < other ==> !windows_overlap(
                            windows[index as int],
                            #[trigger] windows[k],
                        ),
                decreases index - other,
            {
                if periods_overlap(&periods[index], &periods[other]) {
                    let first = periods[other].name.clone();
                    let second = periods[index].name.clone();
                    assert(first_overlap(windows, index as int, other as int));
                    assert(!disjoint_upto(windows, windows.len() as int));
                    return Err(TariffError::OverlappingTouPeriods { first, second });
                }
                other = other + 1;
            }
            index = index + 1;
        }
        let schedule = TouSchedule { periods };
        assert(schedule@ =~= windows);
        Ok(schedule)
    }

    /// Periods in schedule order. No two of them overlap.
    pub fn periods(&self) -> (periods: &[TouPeriod<R>])
        ensures
            periods@.map_values(|p: TouPeriod<R>| p@) == self@,
            forall|i: int| 0 <= i < periods@.len() ==> #[trigger] periods@[i].rate_of() == self.rate_of(i),
            self@.len() > 0,
            disjoint_upto(self@, self@.len() as int),
    {
        proof {
            use_type_invariant(self);
        }
        self.periods.as_slice()
    }

    /// The rate of the period whose window contains `local`. Periods do not
    /// overlap, so at most one does.
    ///
    /// # Errors
    /// [`TariffError::UnmatchedCivilTime`] when no period contains `local`.
    pub fn rate_at(&self, local: CivilMinute) -> (result: Result<R, TariffError>) where R: Copy
        ensures
            some_window_covers(self@, local@) <==> result is Ok,
            result matches Ok(rate) ==> forall|i: int|
                0 <= i < self@.len() && window_covers(#[trigger] self@[i], local@) ==> rate
                    == self.rate_of(i),
            result is Err ==> result == Err::<R, TariffError>(TariffError::UnmatchedCivilTime),
    {
        proof {
            use_type_invariant(self);
        }
        let mut i: usize = 0;
        while i < self.periods.len()
            invariant
                i <= self@.len(),
                self@.len() == self.periods@.len(),
                self@ == self.periods@.map_values(|p: TouPeriod<R>| p@),
                disjoint_upto(self@, self@.len() as int),
                forall|k: int| 0 <= k < i ==> !window_covers(#[trigger] self@[k], local@),
            decreases self@.len() - i,
        {
            if self.periods[i].matches(local) {
                let rate = self.periods[i].rate;
                proof {
                    assert(self@[i as int] == self.periods@[i as int]@);
                    assert(window_covers(self@[i as int], local@));
                    assert forall|k: int|
                        0 <= k < self@.len() && window_covers(#[trigger] self@[k], local@) implies rate
                        == self.rate_of(k) by {
                        lemma_disjoint_windows_cover_at_most_once(self@, local@, i as int, k);
                    }
                }
                return Ok(rate);
            }
            i = i + 1;
        }
        Err(TariffError::UnmatchedCivilTime)
    }

    /// The rate for each civil time in `local`, in order: `local[i]` is the
    /// local time of load interval `i`, of which there are `load_len`.
    ///
    /// # Errors
    /// [`TariffError::CivilTimeLengthMismatch`] when `load_len` is not the
    /// number of civil times, or [`TariffError::UnmatchedTouInterval`] naming
    /// the first interval that falls in no period.
    pub fn interval_rates(&self, load_len: usize, local: &[CivilMinute]) -> (result: Result<
        Vec<R>,
        TariffError,
    >) where R: Copy
        ensures
            load_len != local@.len() ==> result == Err::<Vec<R>, TariffError>(
                TariffError::CivilTimeLengthMismatch { load: load_len, local: local@.len() as usize },
            ),
            load_len == local@.len() && (forall|k: int|
                0 <= k < local@.len() ==> some_window_covers(self@, #[trigger] local@[k]@)) ==> (
            result matches Ok(rates) && rates@.len() == local@.len() && forall|k: int, i: int|
                0 <= k < local@.len() && 0 <= i < self@.len() && window_covers(
                    #[trigger] self@[i],
                    #[trigger] local@[k]@,
                ) ==> rates@[k] == self.rate_of(i)),
            load_len == local@.len() && (exists|k: int|
                0 <= k < local@.len() && !some_window_covers(self@, #[trigger] local@[k]@)) ==> (
            result matches Err(TariffError::UnmatchedTouInterval { index }) && index
                < local@.len() && !some_window_covers(self@, local@[index as int]@) && forall|
                k: int,
            |
                0 <= k < index ==> some_window_covers(self@, #[trigger] local@[k]@)),
    {
        if load_len != local.len() {
            return Err(TariffError::CivilTimeLengthMismatch { load: load_len, local: local.len() });
        }
        let mut rates: Vec<R> = Vec::new();
        let mut index: usize = 0;
        while index < local.len()
            invariant
                index <= local@.len(),
                load_len == local@.len(),
                rates@.len() == index,
                forall|k: int| 0 <= k < index ==> some_window_covers(self@, #[trigger] local@[k]@),
                forall|k: int, i: int|
                    0 <= k < index && 0 <= i < self@.len() && window_covers(
                        #[trigger] self@[i],
                        #[trigger] local@[k]@,
                    ) ==> rates@[k] == self.rate_of(i),
            decreases local@.len() - index,
        {
            match self.rate_at(local[index]) {
                Ok(rate) => {
                    rates.push(rate);
                },
                Err(_) => {
                    return Err(TariffError::UnmatchedTouInterval { index });
                },
            }
            index = index + 1;
        }
        Ok(rates)
    }
}

} // verus!
