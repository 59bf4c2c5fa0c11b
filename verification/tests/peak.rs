use energy_tariff::{CoincidentPeakRule, Minutes, PassThrough, TariffError};

fn fifteen() -> Minutes {
    Minutes::positive(15).expect("positive")
}

fn rule(intervals: u8, pass: PassThrough) -> CoincidentPeakRule<f64> {
    CoincidentPeakRule::new(intervals, fifteen(), vec![6, 7, 8, 9], 10.0, pass)
        .expect("valid rule")
}

#[test]
fn intervals_per_year_other_than_four_or_twelve_is_refused() {
    assert_eq!(
        CoincidentPeakRule::new(6, fifteen(), vec![1], 10.0, PassThrough::Assumed).unwrap_err(),
        TariffError::InvalidIntervalsPerYear(6)
    );
}

#[test]
fn month_outside_one_to_twelve_is_refused() {
    assert_eq!(
        CoincidentPeakRule::new(4, fifteen(), vec![0], 10.0, PassThrough::Assumed).unwrap_err(),
        TariffError::InvalidMonth(0)
    );
    assert_eq!(
        CoincidentPeakRule::new(4, fifteen(), vec![13], 10.0, PassThrough::Assumed).unwrap_err(),
        TariffError::InvalidMonth(13)
    );
}

#[test]
fn rule_stores_the_intervals_months_and_rate() {
    let built: CoincidentPeakRule<f64> = rule(4, PassThrough::Confirmed);
    assert_eq!(built.intervals_per_year(), 4);
    assert_eq!(built.interval_minutes(), fifteen());
    assert_eq!(built.months(), &[6, 7, 8, 9]);
    assert_eq!(built.rate().to_string(), "10");
    assert_eq!(built.pass_through(), PassThrough::Confirmed);
}

// Own tests.

#[test]
fn the_interval_count_must_match_the_rule() {
    assert_eq!(
        rule(4, PassThrough::Assumed).report_line_for(3),
        Err(TariffError::IntervalCountMismatch { expected: 4, got: 3 })
    );
    assert_eq!(
        rule(12, PassThrough::Assumed).report_line_for(4),
        Err(TariffError::IntervalCountMismatch { expected: 12, got: 4 })
    );
}

#[test]
fn a_passed_through_rule_is_billed_without_a_report_line() {
    assert_eq!(rule(4, PassThrough::Assumed).report_line_for(4), Ok(None));
    assert_eq!(rule(12, PassThrough::Confirmed).report_line_for(12), Ok(None));
}

#[test]
fn a_rule_not_passed_through_reports_why() {
    let line = rule(4, PassThrough::NotPassedThrough)
        .report_line_for(4)
        .expect("4 vs 4")
        .expect("why line");
    assert!(line.contains("not passed through"), "got {line}");
    assert!(line.contains("$0"), "got {line}");
}

#[test]
fn the_first_bad_month_is_named() {
    assert_eq!(
        CoincidentPeakRule::new(12, fifteen(), vec![1, 0, 13], 10.0, PassThrough::Assumed)
            .unwrap_err(),
        TariffError::InvalidMonth(0)
    );
    assert!(CoincidentPeakRule::new(12, fifteen(), vec![], 10.0, PassThrough::Assumed).is_ok());
}
