use energy_tariff::{
    ledger_entries, CalendarDate, Charge, ChargeKind, Contract, DateRange, MeterScope, SiteAlias,
    SiteTariff,
};

type TestCharge = Charge<&'static str, &'static str, &'static str, &'static str, f64>;

fn period() -> DateRange {
    DateRange::new(
        CalendarDate::new(2026, 1, 1).expect("valid"),
        CalendarDate::new(2026, 12, 31).expect("valid"),
    )
    .expect("valid")
}

fn contract(name: &str, charges: Vec<TestCharge>) -> Contract<TestCharge> {
    Contract::new(name, MeterScope::new("site").expect("valid"), period(), charges).expect("valid")
}

#[test]
fn entries_follow_contract_order_then_charge_order() {
    let tariff = SiteTariff::new(
        SiteAlias::parse("synthetic-ledgers").expect("alias"),
        vec![
            contract("first", vec![Charge::Energy("dam"), Charge::Fixed(7.0)]),
            contract("second", vec![Charge::Demand("ten"), Charge::CoincidentPeak("4cp")]),
            contract("third", vec![Charge::Facilities("two")]),
        ],
    );
    let entries = ledger_entries(&tariff, &[30.0, 7.0, 1000.0, 5000.0, 100.0]);
    let names: Vec<&str> = entries.iter().map(|(name, _)| name.get()).collect();
    assert_eq!(
        names,
        [
            "first:energy",
            "first:fixed",
            "second:demand",
            "second:coincident_peak",
            "third:facilities"
        ]
    );
    let amounts: Vec<f64> = entries.iter().map(|(_, amount)| *amount).collect();
    assert_eq!(amounts, [30.0, 7.0, 1000.0, 5000.0, 100.0]);
}

#[test]
fn absent_charges_and_empty_contracts_have_no_entry() {
    let tariff = SiteTariff::new(
        SiteAlias::parse("synthetic-fixed").expect("alias"),
        vec![contract("empty", vec![]), contract("only-fixed", vec![Charge::Fixed(7.0)])],
    );
    let entries = ledger_entries(&tariff, &[7.0]);
    assert_eq!(entries.len(), 1);
    assert_eq!(entries[0].0.get(), "only-fixed:fixed");
    assert_eq!(entries[0].1, 7.0);
}

#[test]
fn charge_kinds_name_the_variant() {
    let charges: [TestCharge; 5] = [
        Charge::Energy("e"),
        Charge::Demand("d"),
        Charge::Facilities("f"),
        Charge::CoincidentPeak("p"),
        Charge::Fixed(1.0),
    ];
    let kinds: Vec<ChargeKind> = charges.iter().map(|charge| charge.kind()).collect();
    assert_eq!(
        kinds,
        [
            ChargeKind::Energy,
            ChargeKind::Demand,
            ChargeKind::Facilities,
            ChargeKind::CoincidentPeak,
            ChargeKind::Fixed
        ]
    );
}
