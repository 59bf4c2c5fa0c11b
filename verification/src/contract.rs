//! Contract data: a site, its contracts, and the charges each contract lists.
use crate::calendar::DateRange;
use crate::error::TariffError;
use crate::text::push_char;
use vstd::prelude::*;
use vstd::string::*;

verus! {

/// A character a site alias may hold: `a-z`, `0-9` or `-`.
pub open spec fn alias_char(c: char) -> bool {
    ('a' <= c && c <= 'z') || ('0' <= c && c <= '9') || c == '-'
}

/// By code point, the alias characters are exactly `0x61..=0x7A` (`a` to
/// `z`), `0x30..=0x39` (`0` to `9`) and `0x2D` (`-`): a space, a capital
/// letter, any other punctuation and any character outside ASCII are not.
pub proof fn lemma_alias_chars_by_code_point(c: char)
    ensures
        alias_char(c) <==> (0x61 <= c as u32 <= 0x7a || 0x30 <= c as u32 <= 0x39 || c as u32
            == 0x2d),
        !alias_char(' '),
        !alias_char('_'),
        !alias_char('.'),
        forall|u: char| 'A' <= u <= 'Z' ==> !alias_char(u),
{
}

/// `i` is the first position of `s` whose character is not an alias character.
pub open spec fn first_non_alias_char(s: Seq<char>, i: int) -> bool {
    &&& 0 <= i < s.len()
    &&& !alias_char(s[i])
    &&& forall|j: int| 0 <= j < i ==> alias_char(#[trigger] s[j])
}

fn is_alias_char(character: char) -> (ok: bool)
    ensures
        ok == alias_char(character),
{
    ('a' <= character && character <= 'z') || ('0' <= character && character <= '9')
        || character == '-'
}

/// A site's alias: lowercase letters, digits and hyphens, at least one character.
///
/// The rule refuses the shapes a company or place name arrives in (capitals,
/// spaces, punctuation), so a tariff file cannot carry a real name by accident.
#[derive(Debug, PartialEq, Eq, PartialOrd, Ord, Hash)]
pub struct SiteAlias(String);

impl View for SiteAlias {
    type V = Seq<char>;

    /// The alias text.
    closed spec fn view(&self) -> Seq<char> {
        self.0@
    }
}

impl Clone for SiteAlias {
    fn clone(&self) -> (copy: Self)
        ensures
            copy@ == self@,
    {
        proof {
            use_type_invariant(self);
        }
        SiteAlias(self.0.clone())
    }
}

impl SiteAlias {
    #[verifier::type_invariant]
    spec fn is_alias(self) -> bool {
        self.0@.len() > 0 && forall|i: int| 0 <= i < self.0@.len() ==> alias_char(
            #[trigger] self.0@[i],
        )
    }

    /// `SiteAlias::parse(text)` is that alias, or why the text is not one.
    ///
    /// # Errors
    /// [`TariffError::EmptySiteAlias`] or [`TariffError::SiteAliasCharacter`].
    pub fn parse(text: &str) -> (result: Result<Self, TariffError>)
        ensures
            text@.len() == 0 ==> result == Err::<Self, TariffError>(TariffError::EmptySiteAlias),
            text@.len() > 0 && (forall|i: int| 0 <= i < text@.len() ==> alias_char(
                #[trigger] text@[i],
            )) ==> (result matches Ok(alias) && alias@ == text@),
            (exists|i: int| 0 <= i < text@.len() && !alias_char(#[trigger] text@[i])) ==> (
            result matches Err(TariffError::SiteAliasCharacter { alias, character }) && alias@
                == text@ && exists|i: int|
                first_non_alias_char(text@, i) && character == text@[i]),
    {
        if text.is_empty() {
            return Err(TariffError::EmptySiteAlias);
        }
        let len = text.unicode_len();
        let mut i: usize = 0;
        while i < len
            invariant
                i <= len,
                len == text@.len(),
                forall|j: int| 0 <= j < i ==> alias_char(#[trigger] text@[j]),
            decreases len - i,
        {
            let character = text.get_char(i);
            if !is_alias_char(character) {
                assert(first_non_alias_char(text@, i as int));
                return Err(TariffError::SiteAliasCharacter { alias: text.to_owned(), character });
            }
            i = i + 1;
        }
        Ok(SiteAlias(text.to_owned()))
    }

    /// The alias as text.
    pub fn get(&self) -> (text: &str)
        ensures
            text@ == self@,
            text@.len() > 0,
            forall|i: int| 0 <= i < text@.len() ==> alias_char(#[trigger] text@[i]),
    {
        proof {
            use_type_invariant(self);
        }
        self.0.as_str()
    }
}

/// Which meters a contract applies to. Any non-empty label.
#[derive(Debug, PartialEq, Eq)]
pub struct MeterScope(String);

impl View for MeterScope {
    type V = Seq<char>;

    /// The scope text.
    closed spec fn view(&self) -> Seq<char> {
        self.0@
    }
}

impl Clone for MeterScope {
    fn clone(&self) -> (copy: Self)
        ensures
            copy@ == self@,
    {
        proof {
            use_type_invariant(self);
        }
        MeterScope(self.0.clone())
    }
}

impl MeterScope {
    #[verifier::type_invariant]
    spec fn is_label(self) -> bool {
        self.0@.len() > 0
    }

    /// `MeterScope::new(text)` is that scope, or empty-text refusal.
    ///
    /// # Errors
    /// [`TariffError::EmptyMeterScope`].
    pub fn new(text: &str) -> (result: Result<Self, TariffError>)
        ensures
            text@.len() == 0 ==> result == Err::<Self, TariffError>(TariffError::EmptyMeterScope),
            text@.len() > 0 ==> (result matches Ok(scope) && scope@ == text@),
    {
        if text.is_empty() {
            Err(TariffError::EmptyMeterScope)
        } else {
            Ok(MeterScope(text.to_owned()))
        }
    }

    /// The scope as text.
    pub fn get(&self) -> (text: &str)
        ensures
            text@ == self@,
            text@.len() > 0,
    {
        proof {
            use_type_invariant(self);
        }
        self.0.as_str()
    }
}

/// A length of time in whole minutes: a demand window (15 or 30) or any
/// positive interval length.
#[derive(Debug, Clone, Copy, PartialEq, Eq, Structural)]
pub struct Minutes(u16);

impl View for Minutes {
    type V = int;

    /// The minute count.
    closed spec fn view(&self) -> int {
        self.0 as int
    }
}

impl Minutes {
    #[verifier::type_invariant]
    spec fn is_positive(self) -> bool {
        self.0 > 0
    }

    /// `Minutes::demand_window(n)` is a 15- or 30-minute window.
    ///
    /// # Errors
    /// [`TariffError::InvalidWindow`].
    pub fn demand_window(minutes: u16) -> (result: Result<Self, TariffError>)
        ensures
            minutes == 15 || minutes == 30 ==> (result matches Ok(window) && window@ == minutes),
            !(minutes == 15 || minutes == 30) ==> result == Err::<Self, TariffError>(
                TariffError::InvalidWindow(minutes),
            ),
    {
        match minutes {
            15 | 30 => Ok(Minutes(minutes)),
            other => Err(TariffError::InvalidWindow(other)),
        }
    }

    /// `Minutes::positive(n)` is a positive interval length.
    ///
    /// # Errors
    /// [`TariffError::InvalidIntervalMinutes`].
    pub fn positive(minutes: u16) -> (result: Result<Self, TariffError>)
        ensures
            minutes > 0 ==> (result matches Ok(length) && length@ == minutes),
            minutes == 0 ==> result == Err::<Self, TariffError>(
                TariffError::InvalidIntervalMinutes(minutes),
            ),
    {
        if minutes == 0 {
            Err(TariffError::InvalidIntervalMinutes(minutes))
        } else {
            Ok(Minutes(minutes))
        }
    }

    /// The minute count.
    pub fn get(self) -> (minutes: u16)
        ensures
            minutes == self@,
            minutes > 0,
    {
        proof {
            use_type_invariant(&self);
        }
        self.0
    }
}

/// Unit a rate is denominated in.
#[derive(Debug, Clone, Copy, PartialEq, Eq, Structural)]
pub enum RateUnit {
    /// Dollars per kilowatt-month. Demand charges.
    UsdPerKwMonth,
    /// Dollars per kilowatt-year. Coincident-peak charges.
    UsdPerKwYear,
    /// Dollars per megawatt-hour. Energy.
    UsdPerMwh,
}

/// Whether a coincident-peak charge is billed through to the site.
#[derive(Debug, Clone, Copy, PartialEq, Eq, Structural)]
pub enum PassThrough {
    /// The contract says the charge is passed through.
    Confirmed,
    /// The file assumes it is passed through; unverified.
    Assumed,
    /// The charge is not passed through. Exposure is `$0`.
    NotPassedThrough,
}

/// Optional time-of-use window on a demand charge, hours 0..=23 local.
#[derive(Debug, Clone, Copy, PartialEq, Eq, Structural)]
pub struct TimeOfUse {
    start_hour: u8,
    end_hour: u8,
}

impl View for TimeOfUse {
    type V = (int, int);

    /// Start hour and end hour as stored.
    closed spec fn view(&self) -> (int, int) {
        (self.start_hour as int, self.end_hour as int)
    }
}

fn require_hour(hour: u8) -> (result: Result<u8, TariffError>)
    ensures
        hour <= 23 ==> result == Ok::<u8, TariffError>(hour),
        hour > 23 ==> result == Err::<u8, TariffError>(TariffError::InvalidHour(hour)),
{
    if hour <= 23 {
        Ok(hour)
    } else {
        Err(TariffError::InvalidHour(hour))
    }
}

impl TimeOfUse {
    #[verifier::type_invariant]
    spec fn is_hours(self) -> bool {
        self.start_hour <= 23 && self.end_hour <= 23
    }

    /// `TimeOfUse::new(start, end)` is that hour window.
    ///
    /// Hours are 0..=23. `end_hour` is exclusive unless it equals `start_hour`,
    /// which means the whole day. The caller applies the window to samples
    /// before billing demand; this type only stores it.
    ///
    /// # Errors
    /// [`TariffError::InvalidHour`], naming the start hour first.
    pub fn new(start_hour: u8, end_hour: u8) -> (result: Result<Self, TariffError>)
        ensures
            start_hour > 23 ==> result == Err::<Self, TariffError>(
                TariffError::InvalidHour(start_hour),
            ),
            start_hour <= 23 && end_hour > 23 ==> result == Err::<Self, TariffError>(
                TariffError::InvalidHour(end_hour),
            ),
            start_hour <= 23 && end_hour <= 23 ==> (result matches Ok(window) && window@ == (
            start_hour as int, end_hour as int)),
    {
        require_hour(start_hour)?;
        require_hour(end_hour)?;
        Ok(TimeOfUse { start_hour, end_hour })
    }

    /// Inclusive start hour.
    pub fn start_hour(self) -> (hour: u8)
        ensures
            hour == self@.0,
            hour <= 23,
    {
        proof {
            use_type_invariant(&self);
        }
        self.start_hour
    }

    /// End hour as stored.
    pub fn end_hour(self) -> (hour: u8)
        ensures
            hour == self@.1,
            hour <= 23,
    {
        proof {
            use_type_invariant(&self);
        }
        self.end_hour
    }
}

/// What kind of charge a ledger line bills.
#[derive(Debug, Clone, Copy, PartialEq, Eq, Structural)]
pub enum ChargeKind {
    /// An energy settlement.
    Energy,
    /// A monthly demand charge.
    Demand,
    /// A facilities charge.
    Facilities,
    /// A coincident-peak rule.
    CoincidentPeak,
    /// A fixed amount.
    Fixed,
}

/// The kind's part of a ledger line's name.
pub open spec fn kind_text(kind: ChargeKind) -> Seq<char> {
    match kind {
        ChargeKind::Energy => "energy"@,
        ChargeKind::Demand => "demand"@,
        ChargeKind::Facilities => "facilities"@,
        ChargeKind::CoincidentPeak => "coincident_peak"@,
        ChargeKind::Fixed => "fixed"@,
    }
}

fn kind_name(kind: ChargeKind) -> (name: &'static str)
    ensures
        name@ == kind_text(kind),
{
    match kind {
        ChargeKind::Energy => "energy",
        ChargeKind::Demand => "demand",
        ChargeKind::Facilities => "facilities",
        ChargeKind::CoincidentPeak => "coincident_peak",
        ChargeKind::Fixed => "fixed",
    }
}

/// One present charge on a contract.
///
/// Each variant's payload type is a parameter: `S` an energy settlement, `D` a
/// demand charge, `F` a facilities charge, `P` a coincident-peak rule, `X` a
/// fixed amount.
#[derive(Debug, Clone, PartialEq)]
pub enum Charge<S, D, F, P, X> {
    /// Energy settlement: DAM-indexed, real-time, hedged flat, adder, or time-of-use.
    Energy(S),
    /// Monthly demand charge, optional ratchet and time-of-use.
    Demand(D),
    /// Facilities charge on a contract quantity or the ratcheted peak.
    Facilities(F),
    /// Coincident-peak rule, 4 or 12 intervals per year.
    CoincidentPeak(P),
    /// Fixed amount, reported only.
    Fixed(X),
}

impl<S, D, F, P, X> Charge<S, D, F, P, X> {
    /// The kind of this charge.
    pub open spec fn kind_of(&self) -> ChargeKind {
        match self {
            Charge::Energy(_) => ChargeKind::Energy,
            Charge::Demand(_) => ChargeKind::Demand,
            Charge::Facilities(_) => ChargeKind::Facilities,
            Charge::CoincidentPeak(_) => ChargeKind::CoincidentPeak,
            Charge::Fixed(_) => ChargeKind::Fixed,
        }
    }

    /// The kind of this charge.
    pub fn kind(&self) -> (kind: ChargeKind)
        ensures
            kind == self.kind_of(),
    {
        match self {
            Charge::Energy(_) => ChargeKind::Energy,
            Charge::Demand(_) => ChargeKind::Demand,
            Charge::Facilities(_) => ChargeKind::Facilities,
            Charge::CoincidentPeak(_) => ChargeKind::CoincidentPeak,
            Charge::Fixed(_) => ChargeKind::Fixed,
        }
    }
}

/// Name of one ledger line: `{contract}:{kind}`.
#[derive(Debug, Clone, PartialEq, Eq, PartialOrd, Ord)]
pub struct ChargeName(String);

impl View for ChargeName {
    type V = Seq<char>;

    /// The name text.
    closed spec fn view(&self) -> Seq<char> {
        self.0@
    }
}

impl ChargeName {
    pub(crate) fn new(text: String) -> (name: Self)
        ensures
            name@ == text@,
    {
        ChargeName(text)
    }

    /// The name as text.
    pub fn get(&self) -> (text: &str)
        ensures
            text@ == self@,
    {
        self.0.as_str()
    }
}

/// The ledger name of a charge of `kind` on the contract named `contract`.
pub open spec fn charge_label(contract: Seq<char>, kind: ChargeKind) -> Seq<char> {
    contract + seq![':'] + kind_text(kind)
}

/// One named contract covering a meter scope for a date range.
///
/// The charge type is a parameter: this type stores charges in contract order.
#[derive(Debug, PartialEq)]
pub struct Contract<C> {
    name: String,
    applies_to: MeterScope,
    period: DateRange,
    charges: Vec<C>,
}

impl<C> View for Contract<C> {
    type V = (Seq<char>, Seq<char>, ((int, int, int), (int, int, int)), Seq<C>);

    /// Name, meter scope, period, and charges in contract order.
    closed spec fn view(&self) -> (Seq<char>, Seq<char>, ((int, int, int), (int, int, int)), Seq<C>) {
        (self.name@, self.applies_to@, self.period@, self.charges@)
    }
}

impl<C: Clone> Clone for Contract<C> {
    /// A copy with the same name, scope and period; each charge is cloned by
    /// its own `Clone`.
    fn clone(&self) -> (copy: Self)
        ensures
            copy@.0 == self@.0,
            copy@.1 == self@.1,
            copy@.2 == self@.2,
            copy@.3.len() == self@.3.len(),
    {
        proof {
            use_type_invariant(self);
        }
        Contract {
            name: self.name.clone(),
            applies_to: self.applies_to.clone(),
            period: self.period,
            charges: self.charges.clone(),
        }
    }
}

impl<C> Contract<C> {
    #[verifier::type_invariant]
    spec fn is_named(self) -> bool {
        self.name@.len() > 0
    }

    /// `Contract::new(name, applies_to, period, charges)` is that contract.
    ///
    /// # Errors
    /// [`TariffError::EmptyContractName`].
    pub fn new(name: &str, applies_to: MeterScope, period: DateRange, charges: Vec<C>) -> (result:
        Result<Self, TariffError>)
        ensures
            name@.len() == 0 ==> result == Err::<Self, TariffError>(TariffError::EmptyContractName),
            name@.len() > 0 ==> (result matches Ok(contract) && contract@ == (
                name@,
                applies_to@,
                period@,
                charges@,
            )),
    {
        if name.is_empty() {
            return Err(TariffError::EmptyContractName);
        }
        Ok(Contract { name: name.to_owned(), applies_to, period, charges })
    }

    /// Contract name.
    pub fn name(&self) -> (name: &str)
        ensures
            name@ == self@.0,
            name@.len() > 0,
    {
        proof {
            use_type_invariant(self);
        }
        self.name.as_str()
    }

    /// Meter scope.
    pub fn applies_to(&self) -> (scope: &MeterScope)
        ensures
            scope@ == self@.1,
    {
        &self.applies_to
    }

    /// Inclusive period.
    pub fn period(&self) -> (period: DateRange)
        ensures
            period@ == self@.2,
    {
        self.period
    }

    /// Charges in contract order.
    pub fn charges(&self) -> (charges: &[C])
        ensures
            charges@ == self@.3,
    {
        self.charges.as_slice()
    }
}

/// A site alias and the contracts that apply there.
#[derive(Debug, Clone, PartialEq)]
pub struct SiteTariff<C> {
    site: SiteAlias,
    contracts: Vec<Contract<C>>,
}

impl<C> View for SiteTariff<C> {
    type V = (Seq<char>, Seq<Contract<C>>);

    /// Site alias and contracts in file order.
    closed spec fn view(&self) -> (Seq<char>, Seq<Contract<C>>) {
        (self.site@, self.contracts@)
    }
}

impl<C> SiteTariff<C> {
    /// `SiteTariff::new(site, contracts)` is that tariff.
    pub fn new(site: SiteAlias, contracts: Vec<Contract<C>>) -> (tariff: Self)
        ensures
            tariff@ == (site@, contracts@),
    {
        SiteTariff { site, contracts }
    }

    /// Site alias.
    pub fn site(&self) -> (site: &SiteAlias)
        ensures
            site@ == self@.0,
    {
        &self.site
    }

    /// Contracts in file order.
    pub fn contracts(&self) -> (contracts: &[Contract<C>])
        ensures
            contracts@ == self@.1,
    {
        self.contracts.as_slice()
    }
}

/// The ledger names of one contract's charges, in charge order.
pub open spec fn contract_labels<S, D, F, P, X>(contract: Contract<Charge<S, D, F, P, X>>) -> Seq<
    Seq<char>,
> {
    contract@.3.map_values(|charge: Charge<S, D, F, P, X>| charge_label(contract@.0, charge.kind_of()))
}

/// The ledger names of every present charge: contract order, then charge order
/// inside each contract.
pub open spec fn tariff_labels<S, D, F, P, X>(contracts: Seq<Contract<Charge<S, D, F, P, X>>>) -> Seq<
    Seq<char>,
>
    decreases contracts.len(),
{
    if contracts.len() == 0 {
        Seq::empty()
    } else {
        tariff_labels(contracts.drop_last()) + contract_labels(contracts.last())
    }
}

/// `ledger_entries(tariff, amounts)` pairs each present charge's ledger name
/// with its amount: entry `i` is the name of the `i`-th charge (contract order,
/// then charge order inside each contract) and `amounts[i]`. A charge type
/// absent from the tariff has no entry; entries are never netted.
pub fn ledger_entries<S, D, F, P, X, A: Copy>(
    tariff: &SiteTariff<Charge<S, D, F, P, X>>,
    amounts: &[A],
) -> (entries: Vec<(ChargeName, A)>)
    requires
        amounts@.len() == tariff_labels(tariff@.1).len(),
    ensures
        entries@.len() == amounts@.len(),
        forall|i: int|
            0 <= i < entries@.len() ==> (#[trigger] entries@[i]).0@ == tariff_labels(tariff@.1)[i]
                && entries@[i].1 == amounts@[i],
{
    let contracts = tariff.contracts();
    let mut entries: Vec<(ChargeName, A)> = Vec::new();
    let mut ci: usize = 0;
    while ci < contracts.len()
        invariant
            ci <= contracts@.len(),
            contracts@ == tariff@.1,
            amounts@.len() == tariff_labels(contracts@).len(),
            entries@.len() == tariff_labels(contracts@.take(ci as int)).len(),
            forall|i: int|
                0 <= i < entries@.len() ==> (#[trigger] entries@[i]).0@ == tariff_labels(
                    contracts@.take(ci as int),
                )[i] && entries@[i].1 == amounts@[i],
        decreases contracts@.len() - ci,
    {
        let contract = &contracts[ci];
        let name = contract.name();
        let charges = contract.charges();
        let ghost done = tariff_labels(contracts@.take(ci as int));
        let ghost labels = contract_labels(contracts@[ci as int]);
        proof {
            assert(contracts@.take(ci + 1).drop_last() =~= contracts@.take(ci as int));
            assert(tariff_labels(contracts@.take(ci + 1)) == done + labels);
            lemma_labels_prefix(contracts@, (ci + 1) as int);
        }
        let mut k: usize = 0;
        while k < charges.len()
            invariant
                k <= charges@.len(),
                charges@ == contracts@[ci as int]@.3,
                name@ == contracts@[ci as int]@.0,
                labels == contract_labels(contracts@[ci as int]),
                done + labels == tariff_labels(contracts@.take(ci + 1)),
                done.len() + labels.len() <= amounts@.len(),
                entries@.len() == done.len() + k,
                forall|i: int|
                    0 <= i < entries@.len() ==> (#[trigger] entries@[i]).0@ == (done + labels)[i]
                        && entries@[i].1 == amounts@[i],
            decreases charges@.len() - k,
        {
            let mut text = name.to_owned();
            push_char(&mut text, ':');
            text.append(kind_name(charges[k].kind()));
            let position = entries.len();
            proof {
                assert(text@ == labels[k as int]);
                assert(labels[k as int] == (done + labels)[position as int]);
            }
            entries.push((ChargeName::new(text), amounts[position]));
            k = k + 1;
        }
        ci = ci + 1;
    }
    proof {
        assert(contracts@.take(contracts@.len() as int) =~= contracts@);
    }
    entries
}

/// The number of charges across `contracts`.
pub open spec fn charge_total<C>(contracts: Seq<Contract<C>>) -> nat
    decreases contracts.len(),
{
    if contracts.len() == 0 {
        0
    } else {
        charge_total(contracts.drop_last()) + contracts.last()@.3.len()
    }
}

/// One ledger name per present charge: as many names as charges across all
/// contracts, so a charge type absent from the tariff has no line; and the
/// last name of a non-empty contract is that contract's last charge.
pub proof fn lemma_one_label_per_charge<S, D, F, P, X>(contracts: Seq<Contract<Charge<S, D, F, P, X>>>)
    ensures
        tariff_labels(contracts).len() == charge_total(contracts),
        contracts.len() > 0 && contracts.last()@.3.len() > 0 ==> tariff_labels(contracts).last()
            == charge_label(contracts.last()@.0, contracts.last()@.3.last().kind_of()),
    decreases contracts.len(),
{
    if contracts.len() > 0 {
        lemma_one_label_per_charge(contracts.drop_last());
    }
}

proof fn lemma_labels_prefix<S, D, F, P, X>(contracts: Seq<Contract<Charge<S, D, F, P, X>>>, n: int)
    requires
        0 <= n <= contracts.len(),
    ensures
        tariff_labels(contracts.take(n)).len() <= tariff_labels(contracts).len(),
    decreases contracts.len() - n,
{
    if n < contracts.len() {
        lemma_labels_prefix(contracts, n + 1);
        assert(contracts.take(n + 1).drop_last() =~= contracts.take(n));
    } else {
        assert(contracts.take(n) =~= contracts);
    }
}

} // verus!
