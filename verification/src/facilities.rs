//! Facilities charge: which kilowatt quantity a per-kilowatt rate multiplies.
use crate::error::TariffError;
use vstd::prelude::*;

verus! {

/// What the facilities rate multiplies. The quantity type is a parameter.
#[derive(Debug, Clone, Copy, PartialEq)]
pub enum FacilitiesBasis<K> {
    /// A contracted kilowatt quantity stored on the charge.
    ContractKw {
        /// Contracted kilowatts.
        contract_kw: K,
    },
    /// The billed demand kilowatts for the same month, ratchet included.
    RatchetedPeak,
}

/// How a tariff file names the basis, before the quantity is attached.
#[derive(Debug, Clone, Copy, PartialEq, Eq, Structural)]
pub enum FacilitiesBasisKind {
    /// `contract_kw`: the charge must carry a contract quantity.
    ContractKw,
    /// `ratcheted_peak`: the charge must not carry one.
    RatchetedPeak,
}

impl<K> FacilitiesBasis<K> {
    /// The basis a file describes with `kind` and an optional `contract_kw`.
    ///
    /// # Errors
    /// [`TariffError::MissingContractKw`] for `contract_kw` without a quantity;
    /// [`TariffError::UnexpectedContractKw`] for `ratcheted_peak` with one.
    pub fn from_kind(kind: FacilitiesBasisKind, contract_kw: Option<K>) -> (result: Result<
        Self,
        TariffError,
    >)
        ensures
            kind == FacilitiesBasisKind::ContractKw && contract_kw is Some ==> (result matches Ok(
                FacilitiesBasis::ContractKw { contract_kw: quantity },
            ) && Some(quantity) == contract_kw),
            kind == FacilitiesBasisKind::ContractKw && contract_kw is None ==> result == Err::<
                Self,
                TariffError,
            >(TariffError::MissingContractKw),
            kind == FacilitiesBasisKind::RatchetedPeak && contract_kw is None ==> result matches Ok(
                FacilitiesBasis::RatchetedPeak,
            ),
            kind == FacilitiesBasisKind::RatchetedPeak && contract_kw is Some ==> result == Err::<
                Self,
                TariffError,
            >(TariffError::UnexpectedContractKw),
    {
        match (kind, contract_kw) {
            (FacilitiesBasisKind::ContractKw, Some(kilowatts)) => Ok(
                FacilitiesBasis::ContractKw { contract_kw: kilowatts },
            ),
            (FacilitiesBasisKind::ContractKw, None) => Err(TariffError::MissingContractKw),
            (FacilitiesBasisKind::RatchetedPeak, None) => Ok(FacilitiesBasis::RatchetedPeak),
            (FacilitiesBasisKind::RatchetedPeak, Some(_)) => Err(TariffError::UnexpectedContractKw),
        }
    }

    /// The kilowatts the rate multiplies: the stored contract quantity, which
    /// ignores `ratcheted_kw`, or `ratcheted_kw` itself, the billed demand
    /// kilowatts (month peak, or the ratchet floor when that is higher).
    pub fn billed_quantity(self, ratcheted_kw: K) -> (quantity: K)
        ensures
            match self {
                FacilitiesBasis::ContractKw { contract_kw } => quantity == contract_kw,
                FacilitiesBasis::RatchetedPeak => quantity == ratcheted_kw,
            },
    {
        match self {
            FacilitiesBasis::ContractKw { contract_kw } => contract_kw,
            FacilitiesBasis::RatchetedPeak => ratcheted_kw,
        }
    }
}

} // verus!
