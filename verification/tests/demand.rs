use energy_tariff::{
    DemandCharge, DemandHistory, FacilitiesBasis, FacilitiesBasisKind, Minutes, TariffError,
    TimeOfUse, YearMonth,
};

fn month(year: i32, month: u8) -> YearMonth {
    YearMonth::new(year, month).expect("valid")
}

#[test]
fn demand_charge_keeps_its_parts() {
    let hours = TimeOfUse::new(7, 19).expect("valid");
    let window = Minutes::demand_window(15).expect("15");
    let charge: DemandCharge<f64, (f64, u32)> =
        DemandCharge::new(10.0, window, Some((80.0, 1)), Some(hours)).expect("valid");
    assert_eq!(*charge.rate(), 10.0);
    assert_eq!(charge.window().get(), 15);
    assert_eq!(charge.ratchet(), Some((80.0, 1)));
    assert_eq!(charge.hours(), Some(hours));
}

#[test]
fn a_positive_length_that_is_not_a_window_is_refused() {
    let twenty = Minutes::positive(20).expect("positive");
    let refused: Result<DemandCharge<f64, ()>, TariffError> =
        DemandCharge::new(10.0, twenty, None, None);
    assert_eq!(refused.unwrap_err(), TariffError::InvalidWindow(20));
}

#[test]
fn peaks_before_reads_the_lookback_months() {
    let history = DemandHistory::new().with_peak(month(2026, 2), 200.0);
    assert_eq!(history.peaks_before(month(2026, 3), 1), vec![200.0]);
    assert_eq!(history.peaks_before(month(2026, 3), 0), Vec::<f64>::new());
    assert_eq!(history.peaks_before(month(2026, 2), 1), Vec::<f64>::new());
}

#[test]
fn peaks_before_walks_back_across_january_nearest_first() {
    let history = DemandHistory::new()
        .with_peak(month(2025, 11), 120.0)
        .with_peak(month(2026, 1), 150.0)
        .with_peak(month(2025, 12), 130.0)
        .with_peak(month(2026, 2), 999.0);
    assert_eq!(
        history.peaks_before(month(2026, 2), 3),
        vec![150.0, 130.0, 120.0]
    );
    assert_eq!(history.peaks_before(month(2026, 2), 2), vec![150.0, 130.0]);
    assert_eq!(history.peaks_before(month(2026, 2), 12), vec![150.0, 130.0, 120.0]);
}

#[test]
fn a_later_peak_for_the_same_month_replaces_the_earlier() {
    let history = DemandHistory::new()
        .with_peak(month(2026, 2), 200.0)
        .with_peak(month(2026, 2), 50.0);
    assert_eq!(history.peaks_before(month(2026, 3), 1), vec![50.0]);
}

#[test]
fn facilities_basis_follows_the_file_fields() {
    assert_eq!(
        FacilitiesBasis::from_kind(FacilitiesBasisKind::ContractKw, Some(50.0)),
        Ok(FacilitiesBasis::ContractKw { contract_kw: 50.0 })
    );
    assert_eq!(
        FacilitiesBasis::<f64>::from_kind(FacilitiesBasisKind::ContractKw, None),
        Err(TariffError::MissingContractKw)
    );
    assert_eq!(
        FacilitiesBasis::<f64>::from_kind(FacilitiesBasisKind::RatchetedPeak, None),
        Ok(FacilitiesBasis::RatchetedPeak)
    );
    assert_eq!(
        FacilitiesBasis::from_kind(FacilitiesBasisKind::RatchetedPeak, Some(50.0)),
        Err(TariffError::UnexpectedContractKw)
    );
}

#[test]
fn facilities_basis_picks_the_billed_quantity() {
    let contract = FacilitiesBasis::ContractKw { contract_kw: 50.0 };
    assert_eq!(contract.billed_quantity(999.0), 50.0);
    assert_eq!(FacilitiesBasis::RatchetedPeak.billed_quantity(180.0), 180.0);
}
