use energy_tariff::{
    CivilMinute, EnergyPricing, PriceSeries, Settlement, TariffError, TouPeriod, TouSchedule,
};

type Plain = Settlement<f64, f64, f64>;

fn all_days() -> Vec<u8> {
    (1..=7).collect()
}

fn all_months() -> Vec<u8> {
    (1..=12).collect()
}

#[test]
fn series_settlements_pick_their_series() {
    assert_eq!(
        Plain::DamIndexed.pricing(2, &[], 2, 0),
        Ok(EnergyPricing::Series { series: PriceSeries::DayAhead, adder: None })
    );
    assert_eq!(
        Plain::RealTime.pricing(2, &[], 0, 2),
        Ok(EnergyPricing::Series { series: PriceSeries::RealTime, adder: None })
    );
    assert_eq!(
        Plain::DamIndexedAdder(5.0).pricing(2, &[], 2, 2),
        Ok(EnergyPricing::Series { series: PriceSeries::DayAhead, adder: Some(5.0) })
    );
    assert_eq!(
        Plain::RealTimeAdder(5.0).pricing(2, &[], 2, 2),
        Ok(EnergyPricing::Series { series: PriceSeries::RealTime, adder: Some(5.0) })
    );
}

#[test]
fn a_series_of_the_wrong_length_is_refused() {
    assert_eq!(
        Plain::DamIndexed.pricing(2, &[], 1, 2),
        Err(TariffError::SeriesLengthMismatch { load: 2, prices: 1 })
    );
    assert_eq!(
        Plain::RealTimeAdder(5.0).pricing(2, &[], 2, 3),
        Err(TariffError::SeriesLengthMismatch { load: 2, prices: 3 })
    );
}

#[test]
fn hedged_ignores_the_price_series() {
    assert_eq!(Plain::Hedged(45.0).pricing(2, &[], 7, 0), Ok(EnergyPricing::Flat(45.0)));
}

#[test]
fn time_of_use_needs_civil_time() {
    let off = TouPeriod::new("off", vec![6], vec![3], 0, 1440, 10.0).expect("valid");
    let schedule = Plain::Tou(TouSchedule::new(vec![off]).expect("valid"));
    assert_eq!(schedule.pricing(2, &[], 0, 0), Err(TariffError::MissingCivilTime));
    assert_eq!(schedule.pricing(0, &[], 0, 0), Ok(EnergyPricing::PerInterval(vec![])));
}

#[test]
fn time_of_use_prices_each_interval() {
    let off = TouPeriod::new("off", all_months(), all_days(), 0, 720, 10.0).expect("valid");
    let on = TouPeriod::new("on", all_months(), all_days(), 720, 1440, 40.0).expect("valid");
    let schedule = Plain::Tou(TouSchedule::new(vec![off, on]).expect("valid"));
    let local =
        [600_u16, 690, 720, 780].map(|minute| CivilMinute::new(6, 3, minute).expect("valid"));
    assert_eq!(
        schedule.pricing(4, &local, 0, 0),
        Ok(EnergyPricing::PerInterval(vec![10.0, 10.0, 40.0, 40.0]))
    );
    assert_eq!(
        schedule.pricing(3, &local, 0, 0),
        Err(TariffError::CivilTimeLengthMismatch { load: 3, local: 4 })
    );
}
