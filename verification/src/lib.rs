//! Types and calculations for a site's electricity contracts.

pub mod calendar;
pub mod contract;
pub mod demand;
pub mod error;
pub mod facilities;
pub mod peak;
pub mod settlement;
pub mod text;
pub mod tou;

pub use calendar::{CalendarDate, DateRange, YearMonth};
pub use contract::{
    ledger_entries, Charge, ChargeKind, ChargeName, Contract, MeterScope, Minutes, PassThrough,
    RateUnit, SiteAlias, SiteTariff, TimeOfUse,
};
pub use demand::{DemandCharge, DemandHistory};
pub use error::TariffError;
pub use facilities::{FacilitiesBasis, FacilitiesBasisKind};
pub use peak::CoincidentPeakRule;
pub use settlement::{EnergyPricing, PriceSeries, Settlement};
pub use tou::{CivilMinute, TouPeriod, TouSchedule};
