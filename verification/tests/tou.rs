use energy_tariff::{CivilMinute, TariffError, TouPeriod, TouSchedule};

fn all_months() -> Vec<u8> {
    (1..=12).collect()
}

fn all_weekdays() -> Vec<u8> {
    (1..=7).collect()
}

fn period(name: &str, start_min: u16, end_min: u16, rate: f64) -> TouPeriod<f64> {
    TouPeriod::new(name, all_months(), all_weekdays(), start_min, end_min, rate)
        .expect("valid period")
}

#[test]
fn civil_minute_stores_month_weekday_and_minute() {
    let local = CivilMinute::new(6, 3, 720).expect("noon on a Wednesday in June");
    assert_eq!(CivilMinute::month(local), 6);
    assert_eq!(CivilMinute::iso_weekday(local), 3);
    assert_eq!(CivilMinute::minute_of_day(local), 720);
}

#[test]
fn civil_minute_refuses_out_of_range_parts() {
    assert_eq!(CivilMinute::new(0, 1, 0), Err(TariffError::InvalidMonth(0)));
    assert_eq!(
        CivilMinute::new(1, 0, 0),
        Err(TariffError::InvalidWeekday(0))
    );
    assert_eq!(
        CivilMinute::new(1, 8, 0),
        Err(TariffError::InvalidWeekday(8))
    );
    assert_eq!(
        CivilMinute::new(1, 1, 1440),
        Err(TariffError::InvalidMinute(1440))
    );
}

#[test]
fn tou_period_stores_its_window_and_rate() {
    let period = TouPeriod::new("off", vec![6], vec![3], 0, 720, 10.0).expect("valid");
    assert_eq!(TouPeriod::name(&period), "off");
    assert_eq!(TouPeriod::months(&period), &[6]);
    assert_eq!(TouPeriod::weekdays(&period), &[3]);
    assert_eq!(TouPeriod::start_min(&period), 0);
    assert_eq!(TouPeriod::end_min(&period), 720);
    assert_eq!(*TouPeriod::rate(&period), 10.0);
}

#[test]
fn tou_period_refuses_an_empty_name_months_or_weekdays() {
    assert_eq!(
        TouPeriod::new("", vec![1], vec![1], 0, 60, 1.0).unwrap_err(),
        TariffError::EmptyTouName
    );
    assert_eq!(
        TouPeriod::new("off", vec![], vec![1], 0, 60, 1.0).unwrap_err(),
        TariffError::EmptyTouMonths
    );
    assert_eq!(
        TouPeriod::new("off", vec![1], vec![], 0, 60, 1.0).unwrap_err(),
        TariffError::EmptyTouWeekdays
    );
}

#[test]
fn tou_period_refuses_a_bad_month_weekday_duplicate_or_window() {
    assert_eq!(
        TouPeriod::new("off", vec![13], vec![1], 0, 60, 1.0).unwrap_err(),
        TariffError::InvalidMonth(13)
    );
    assert_eq!(
        TouPeriod::new("off", vec![1], vec![9], 0, 60, 1.0).unwrap_err(),
        TariffError::InvalidWeekday(9)
    );
    assert_eq!(
        TouPeriod::new("off", vec![1, 1], vec![1], 0, 60, 1.0).unwrap_err(),
        TariffError::DuplicateTouMonth(1)
    );
    assert_eq!(
        TouPeriod::new("off", vec![1], vec![1, 1], 0, 60, 1.0).unwrap_err(),
        TariffError::DuplicateTouWeekday(1)
    );
    assert_eq!(
        TouPeriod::new("off", vec![1], vec![1], 1440, 1440, 1.0).unwrap_err(),
        TariffError::InvalidMinute(1440)
    );
    assert_eq!(
        TouPeriod::new("off", vec![1], vec![1], 0, 1441, 1.0).unwrap_err(),
        TariffError::InvalidMinute(1441)
    );
    assert_eq!(
        TouPeriod::new("off", vec![1], vec![1], 60, 60, 1.0).unwrap_err(),
        TariffError::EmptyTouWindow
    );
}

#[test]
fn empty_schedule_is_refused() {
    let periods: Vec<TouPeriod<f64>> = vec![];
    assert_eq!(
        TouSchedule::new(periods).unwrap_err(),
        TariffError::EmptyTouSchedule
    );
}

#[test]
fn overlapping_periods_are_refused_and_disjoint_ones_are_kept() {
    let morning = period("morning", 0, 720, 10.0);
    let overlap = period("overlap", 600, 800, 20.0);
    assert_eq!(
        TouSchedule::new(vec![morning, overlap]).unwrap_err(),
        TariffError::OverlappingTouPeriods {
            first: "morning".to_owned(),
            second: "overlap".to_owned(),
        }
    );
    let off = period("off", 0, 720, 10.0);
    let on = period("on", 720, 1440, 40.0);
    let schedule = TouSchedule::new(vec![off, on]).expect("boundary is not an overlap");
    assert_eq!(TouSchedule::periods(&schedule).len(), 2);
    let noon = CivilMinute::new(6, 3, 720).expect("valid");
    assert_eq!(
        TouSchedule::rate_at(&schedule, noon).expect("on period"),
        40.0
    );
}

#[test]
fn periods_on_different_weekdays_do_not_overlap() {
    let monday = TouPeriod::new("mon", all_months(), vec![1], 0, 1440, 10.0).expect("valid");
    let tuesday = TouPeriod::new("tue", all_months(), vec![2], 0, 1440, 20.0).expect("valid");
    assert!(TouSchedule::new(vec![monday, tuesday]).is_ok());
}

#[test]
fn rate_at_refuses_an_unmatched_civil_time() {
    let june = TouPeriod::new("june", vec![6], all_weekdays(), 0, 1440, 10.0).expect("valid");
    let schedule = TouSchedule::new(vec![june]).expect("valid");
    let july = CivilMinute::new(7, 1, 0).expect("valid");
    assert_eq!(
        TouSchedule::rate_at(&schedule, july).unwrap_err(),
        TariffError::UnmatchedCivilTime
    );
}

// Own tests.

#[test]
fn interval_rates_cross_the_period_boundary() {
    // SYNTHETIC. off is [0, 720) at 10, on is [720, 1440) at 40.
    let schedule = TouSchedule::new(vec![
        period("off", 0, 720, 10.0),
        period("on", 720, 1440, 40.0),
    ])
    .expect("valid");
    let local =
        [600_u16, 690, 720, 780].map(|minute| CivilMinute::new(6, 3, minute).expect("valid"));
    let rates = schedule.interval_rates(4, &local).expect("each interval matches");
    assert_eq!(rates, vec![10.0, 10.0, 40.0, 40.0]);
    assert_eq!(
        schedule.interval_rates(0, &[]).expect("no intervals"),
        Vec::<f64>::new()
    );
}

#[test]
fn interval_rates_refuse_a_length_mismatch_and_an_unmatched_interval() {
    let schedule = TouSchedule::new(vec![period("off", 0, 720, 10.0)]).expect("valid");
    let one = [CivilMinute::new(6, 3, 0).expect("valid")];
    assert_eq!(
        schedule.interval_rates(2, &one).unwrap_err(),
        TariffError::CivilTimeLengthMismatch { load: 2, local: 1 }
    );
    let past_noon = [
        CivilMinute::new(6, 3, 600).expect("valid"),
        CivilMinute::new(6, 3, 720).expect("valid"),
        CivilMinute::new(6, 3, 800).expect("valid"),
    ];
    assert_eq!(
        schedule.interval_rates(3, &past_noon).unwrap_err(),
        TariffError::UnmatchedTouInterval { index: 1 }
    );
}

#[test]
fn the_first_overlapping_pair_is_named() {
    // a and b are disjoint; c overlaps b first and also a.
    let a = TouPeriod::new("a", vec![1], vec![1], 0, 60, 1.0).expect("valid");
    let b = TouPeriod::new("b", vec![2], vec![1], 0, 60, 2.0).expect("valid");
    let c = TouPeriod::new("c", vec![2, 1], vec![1], 30, 90, 3.0).expect("valid");
    assert_eq!(
        TouSchedule::new(vec![a, b, c]).unwrap_err(),
        TariffError::OverlappingTouPeriods {
            first: "a".to_owned(),
            second: "c".to_owned(),
        }
    );
}

#[test]
fn a_month_is_checked_before_the_weekdays_and_minutes() {
    assert_eq!(
        TouPeriod::new("x", vec![2, 14, 2], vec![0], 2000, 0, 1.0).unwrap_err(),
        TariffError::InvalidMonth(14)
    );
    assert_eq!(
        TouPeriod::new("x", vec![2, 2, 14], vec![0], 2000, 0, 1.0).unwrap_err(),
        TariffError::DuplicateTouMonth(2)
    );
    assert_eq!(
        TouPeriod::new("x", vec![3], vec![7, 7], 2000, 0, 1.0).unwrap_err(),
        TariffError::DuplicateTouWeekday(7)
    );
}

#[test]
fn at_most_one_period_covers_a_civil_time() {
    let schedule = TouSchedule::new(vec![
        TouPeriod::new("winter", vec![1, 2, 12], all_weekdays(), 0, 1440, 5.0).expect("valid"),
        TouPeriod::new("summer-peak", vec![6, 7, 8], vec![1, 2, 3, 4, 5], 960, 1260, 90.0)
            .expect("valid"),
        TouPeriod::new("summer-rest", vec![6, 7, 8], vec![6, 7], 0, 1440, 20.0).expect("valid"),
    ])
    .expect("disjoint");
    let weekday_evening = CivilMinute::new(7, 2, 1000).expect("valid");
    let weekend_evening = CivilMinute::new(7, 6, 1000).expect("valid");
    let weekday_morning = CivilMinute::new(7, 2, 100).expect("valid");
    assert_eq!(schedule.rate_at(weekday_evening), Ok(90.0));
    assert_eq!(schedule.rate_at(weekend_evening), Ok(20.0));
    assert_eq!(schedule.rate_at(weekday_morning), Err(TariffError::UnmatchedCivilTime));
}
