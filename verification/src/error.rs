use vstd::prelude::*;

verus! {

/// Why a constructor, parse, or calculation refused its input.
#[derive(Debug, Clone, PartialEq, Eq)]
pub enum TariffError {
    /// No text at all, which names no site.
    EmptySiteAlias,
    /// A character an alias cannot hold.
    SiteAliasCharacter {
        /// The rejected alias text.
        alias: String,
        /// The first character that is not `a-z`, `0-9`, or `-`.
        character: char,
    },
    /// A contract with no name cannot be told apart from another.
    EmptyContractName,
    /// A meter scope with no text names no meter.
    EmptyMeterScope,
    /// Rate value is negative or not finite.
    IllegalRate {
        /// The rejected number, as text so NaN and infinities still print.
        value: String,
    },
    /// Demand interval length is not 15 or 30 minutes.
    InvalidWindow(u16),
    /// Ratchet percent is not in `(0, 100]`.
    InvalidRatchetPct(String),
    /// Ratchet lookback of zero months is not a lookback.
    InvalidRatchetMonths(u32),
    /// Coincident-peak count is not 4 or 12.
    InvalidIntervalsPerYear(u8),
    /// Interval length of zero minutes is not an interval.
    InvalidIntervalMinutes(u16),
    /// Calendar month outside 1..=12.
    InvalidMonth(u8),
    /// Text is not a calendar day in `YYYY-MM-DD`.
    InvalidDate(String),
    /// Range starts after it ends.
    InvertedDateRange,
    /// Hour-of-day outside 0..=23.
    InvalidHour(u8),
    /// Minute of day outside the legal window.
    InvalidMinute(u16),
    /// ISO weekday outside 1..=7.
    InvalidWeekday(u8),
    /// Time-of-use period with no name.
    EmptyTouName,
    /// Time-of-use period that names no month.
    EmptyTouMonths,
    /// Time-of-use period that names no weekday.
    EmptyTouWeekdays,
    /// The same month listed twice in one period.
    DuplicateTouMonth(u8),
    /// The same weekday listed twice in one period.
    DuplicateTouWeekday(u8),
    /// `start_min >= end_min`, so the window contains no minute.
    EmptyTouWindow,
    /// Schedule with no periods.
    EmptyTouSchedule,
    /// Two periods cover the same local minute.
    OverlappingTouPeriods {
        /// Name of the earlier period.
        first: String,
        /// Name of the later period.
        second: String,
    },
    /// Civil time fell in no period.
    UnmatchedCivilTime,
    /// Load hour fell in no period.
    UnmatchedTouInterval {
        /// Index into the load slice.
        index: usize,
    },
    /// Load hours and civil times have different lengths.
    CivilTimeLengthMismatch {
        /// Length of the load series.
        load: usize,
        /// Length of the civil-time series.
        local: usize,
    },
    /// Time-of-use settlement billed without civil time.
    MissingCivilTime,
    /// Adder of zero is the unit settlement, not an adder variant.
    ZeroAdder,
    /// `contract_kw` basis without a quantity.
    MissingContractKw,
    /// `ratcheted_peak` basis that also carries a contract quantity.
    UnexpectedContractKw,
    /// Supplied coincident-peak kW count does not match the rule.
    IntervalCountMismatch {
        /// Count the rule requires.
        expected: usize,
        /// Count the caller supplied.
        got: usize,
    },
    /// Energy load hours and the price series are different lengths.
    SeriesLengthMismatch {
        /// Length of the load series.
        load: usize,
        /// Length of the price series.
        prices: usize,
    },
    /// JSON text did not match the schema, or a constructor refused a value.
    Json(String),
    /// TOML text did not match the schema, or a constructor refused a value.
    Toml(String),
}

} // verus!
