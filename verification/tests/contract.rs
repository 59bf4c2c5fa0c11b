use energy_tariff::{
    CalendarDate, Contract, DateRange, MeterScope, Minutes, SiteAlias, SiteTariff, TariffError,
    TimeOfUse, YearMonth,
};

#[test]
fn site_alias_accepts_hyphenated_lowercase() {
    let alias = SiteAlias::parse("synthetic-4cp").expect("fixture alias");
    assert_eq!(alias.get(), "synthetic-4cp");
}

#[test]
fn site_alias_refuses_empty_and_capitals() {
    assert_eq!(SiteAlias::parse(""), Err(TariffError::EmptySiteAlias));
    assert!(matches!(
        SiteAlias::parse("Acme"),
        Err(TariffError::SiteAliasCharacter { character: 'A', .. })
    ));
}

#[test]
fn date_range_refuses_inverted_bounds() {
    let start = CalendarDate::new(2026, 6, 1).expect("valid");
    let end = CalendarDate::new(2026, 1, 1).expect("valid");
    assert_eq!(
        DateRange::new(start, end),
        Err(TariffError::InvertedDateRange)
    );
}

#[test]
fn calendar_date_refuses_31_april() {
    assert!(CalendarDate::new(2026, 4, 31).is_err());
}

#[test]
fn year_month_pred_crosses_january() {
    let jan = YearMonth::new(2026, 1).expect("valid");
    let dec = jan.pred();
    assert_eq!(dec.year(), 2025);
    assert_eq!(dec.month(), 12);
}

#[test]
fn time_of_use_refuses_hour_24() {
    assert_eq!(TimeOfUse::new(0, 24), Err(TariffError::InvalidHour(24)));
    let window = TimeOfUse::new(7, 19).expect("valid");
    assert_eq!(window.start_hour(), 7);
    assert_eq!(window.end_hour(), 19);
}

#[test]
fn calendar_date_parses_iso_and_refuses_garbage() {
    let date = CalendarDate::parse("2026-01-01").expect("iso");
    assert_eq!(date.to_iso(), "2026-01-01");
    assert!(CalendarDate::parse("2026/01/01").is_err());
}

#[test]
fn empty_contract_name_is_refused() {
    let period = DateRange::new(
        CalendarDate::new(2026, 1, 1).expect("valid"),
        CalendarDate::new(2026, 12, 31).expect("valid"),
    )
    .expect("valid");
    let scope = MeterScope::new("site").expect("valid");
    let charges: Vec<()> = vec![];
    assert_eq!(
        Contract::new("", scope, period, charges).unwrap_err(),
        TariffError::EmptyContractName
    );
}

#[test]
fn empty_meter_scope_is_refused() {
    assert_eq!(MeterScope::new(""), Err(TariffError::EmptyMeterScope));
}

#[test]
fn year_month_refuses_month_zero_and_thirteen() {
    assert_eq!(YearMonth::new(2026, 0), Err(TariffError::InvalidMonth(0)));
    assert_eq!(YearMonth::new(2026, 13), Err(TariffError::InvalidMonth(13)));
}

#[test]
fn minutes_positive_refuses_zero() {
    assert_eq!(
        Minutes::positive(0),
        Err(TariffError::InvalidIntervalMinutes(0))
    );
}

#[test]
fn site_tariff_holds_the_site_and_contracts() {
    let start = CalendarDate::new(2026, 1, 1).expect("valid");
    let end = CalendarDate::new(2026, 12, 31).expect("valid");
    let period = DateRange::new(start, end).expect("valid");
    let charges: Vec<()> = vec![];
    let contract = Contract::new(
        "primary",
        MeterScope::new("site").expect("valid"),
        period,
        charges,
    )
    .expect("valid");
    assert_eq!(contract.name(), "primary");
    assert_eq!(contract.applies_to().get(), "site");
    assert_eq!(contract.period().start(), start);
    assert_eq!(contract.period().end(), end);
    assert!(contract.charges().is_empty());
    let tariff = SiteTariff::new(
        SiteAlias::parse("synthetic-hold").expect("alias"),
        vec![contract],
    );
    assert_eq!(tariff.site().get(), "synthetic-hold");
    assert_eq!(tariff.contracts().len(), 1);
}

#[test]
fn window_that_is_not_fifteen_or_thirty_is_refused() {
    assert_eq!(
        Minutes::demand_window(20),
        Err(TariffError::InvalidWindow(20))
    );
    assert_eq!(
        Minutes::demand_window(0),
        Err(TariffError::InvalidWindow(0))
    );
}

// Own tests.

#[test]
fn site_alias_names_the_first_bad_character() {
    assert_eq!(
        SiteAlias::parse("site-a_b C"),
        Err(TariffError::SiteAliasCharacter {
            alias: "site-a_b C".to_owned(),
            character: '_',
        })
    );
    assert_eq!(SiteAlias::parse("0-9az").expect("alias").get(), "0-9az");
}

#[test]
fn calendar_date_knows_leap_years() {
    assert!(CalendarDate::new(2024, 2, 29).is_ok());
    assert!(CalendarDate::new(2000, 2, 29).is_ok());
    assert_eq!(
        CalendarDate::new(1900, 2, 29),
        Err(TariffError::InvalidDate("1900-02-29".to_owned()))
    );
    assert_eq!(
        CalendarDate::new(2026, 2, 29),
        Err(TariffError::InvalidDate("2026-02-29".to_owned()))
    );
    assert!(CalendarDate::new(-4, 2, 29).is_ok());
    assert_eq!(CalendarDate::new(2026, 13, 1), Err(TariffError::InvalidMonth(13)));
    assert_eq!(
        CalendarDate::new(26, 1, 0),
        Err(TariffError::InvalidDate("0026-01-00".to_owned()))
    );
}

#[test]
fn calendar_date_pads_small_and_negative_years() {
    assert_eq!(CalendarDate::new(7, 3, 9).expect("valid").to_iso(), "0007-03-09");
    assert_eq!(CalendarDate::new(-7, 3, 9).expect("valid").to_iso(), "-007-03-09");
    assert_eq!(
        CalendarDate::new(12345, 12, 31).expect("valid").to_iso(),
        "12345-12-31"
    );
}

#[test]
fn calendar_date_reads_fields_as_rust_integers() {
    let signed = CalendarDate::parse("+026-+1-+2").expect("signs are read");
    assert_eq!(signed, CalendarDate::new(26, 1, 2).expect("valid"));
    let negative = CalendarDate::parse("-007-03-09").expect("negative year");
    assert_eq!(negative.to_iso(), "-007-03-09");
    assert_eq!(
        CalendarDate::parse("2026--1-01"),
        Err(TariffError::InvalidDate("2026--1-01".to_owned()))
    );
    assert_eq!(CalendarDate::parse("2026-13-01"), Err(TariffError::InvalidMonth(13)));
    assert_eq!(
        CalendarDate::parse("2026-04-31"),
        Err(TariffError::InvalidDate("2026-04-31".to_owned()))
    );
    assert_eq!(
        CalendarDate::parse("+026-02-30"),
        Err(TariffError::InvalidDate("0026-02-30".to_owned()))
    );
    assert!(CalendarDate::parse("2026-1-01").is_err());
    assert!(CalendarDate::parse("2é26-01-01").is_err());
}

#[test]
fn iso_text_round_trips_through_parse() {
    for (year, month, day) in [(2026, 1, 1), (0, 12, 31), (-999, 2, 28), (9999, 6, 30), (2024, 2, 29)] {
        let date = CalendarDate::new(year, month, day).expect("valid");
        assert_eq!(CalendarDate::parse(&date.to_iso()), Ok(date));
    }
}

#[test]
fn date_range_accepts_a_single_day() {
    let day = CalendarDate::new(2026, 5, 5).expect("valid");
    let range = DateRange::new(day, day).expect("one day");
    assert_eq!(range.start(), range.end());
}

#[test]
fn year_month_pred_within_a_year() {
    let march = YearMonth::new(2026, 3).expect("valid");
    assert_eq!(march.pred(), YearMonth::new(2026, 2).expect("valid"));
}

#[test]
fn time_of_use_refuses_the_start_hour_first() {
    assert_eq!(TimeOfUse::new(30, 40), Err(TariffError::InvalidHour(30)));
    assert_eq!(TimeOfUse::new(23, 0).expect("valid").end_hour(), 0);
}

#[test]
fn minutes_keep_their_count() {
    assert_eq!(Minutes::demand_window(30).expect("30").get(), 30);
    assert_eq!(Minutes::positive(5).expect("5").get(), 5);
}
