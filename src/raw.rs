use vstd::prelude::*;

use crate::binary64::Binary64;
use crate::configuration::{ElectronConfiguration, Occupancy, levels_in_order};
use crate::data::{AtomicData, ElectronData, InnerElement, StateData};
use crate::error::{ElementError, ErrorView};
use crate::parser::{configuration_outcome, parse_configuration};

verus! {

/// Number of shell slots in an [`ElectronData`].
pub const SHELL_SLOTS: usize = 8;

/// Number of ionisation energy slots in an [`ElectronData`].
pub const IONISATION_SLOTS: usize = 30;

/// `s` followed by copies of `fill` up to length `n`.
pub open spec fn padded<T>(s: Seq<T>, n: nat, fill: T) -> Seq<T> {
    Seq::new(n, |i: int| if i < s.len() { s[i] } else { fill })
}

/// An element record as published in a periodic-table dataset, with lists of
/// any length and the electron configuration as text.
#[derive(Clone, Debug, PartialEq)]
pub struct RawElement {
    pub name: String,
    pub symbol: String,
    pub summary: String,
    pub atomic_mass: Binary64,
    pub number: u8,
    pub boil: Option<Binary64>,
    pub melt: Option<Binary64>,
    pub electron_affinity: Option<Binary64>,
    pub electronegativity_pauling: Option<Binary64>,
    pub shells: Vec<u8>,
    pub electron_configuration: String,
    pub ionization_energies: Vec<Binary64>,
}

/// The error that normalizing `raw` raises, if any: an overlong shell list,
/// then an overlong ionisation energy list, then an unreadable configuration.
pub open spec fn normalization_error(raw: RawElement) -> Option<ErrorView> {
    if raw.shells@.len() > SHELL_SLOTS {
        Some(
            ErrorView::CapacityExceeded {
                context: "shells"@,
                limit: SHELL_SLOTS as nat,
                actual: raw.shells@.len(),
            },
        )
    } else if raw.ionization_energies@.len() > IONISATION_SLOTS {
        Some(
            ErrorView::CapacityExceeded {
                context: "ionization_energies"@,
                limit: IONISATION_SLOTS as nat,
                actual: raw.ionization_energies@.len(),
            },
        )
    } else {
        match configuration_outcome(raw.electron_configuration@) {
            Ok(_) => None,
            Err(cause) => Some(
                ErrorView::NormalizationFailed {
                    field: "electron_configuration"@,
                    cause: Box::new(cause),
                },
            ),
        }
    }
}

fn too_many(context: &str, limit: usize, actual: usize) -> (e: ElementError)
    ensures
        e@ == (ErrorView::CapacityExceeded {
            context: context@,
            limit: limit as nat,
            actual: actual as nat,
        }),
{
    ElementError::CapacityExceeded { context: context.to_owned(), limit, actual }
}

fn field_failed(field: &str, cause: ElementError) -> (e: ElementError)
    ensures
        e@ == (ErrorView::NormalizationFailed { field: field@, cause: Box::new(cause@) }),
{
    ElementError::NormalizationFailed { field: field.to_owned(), cause: Box::new(cause) }
}

impl RawElement {
    /// The validated, fixed-layout form of the record.
    ///
    /// Fails where `shells` has more than 8 entries, where
    /// `ionization_energies` has more than 30, or where the electron
    /// configuration cannot be read, in that order.
    pub fn into_inner(self) -> (r: Result<InnerElement, ElementError>)
        ensures
            r matches Err(e) ==> normalization_error(self) == Some(e@),
            r is Ok <==> normalization_error(self) is None,
            r matches Ok(el) ==> {
                &&& el.name == self.name
                &&& el.symbol == self.symbol
                &&& el.description == self.summary
                &&& el.atomic_data == (AtomicData {
                    atomic_number: self.number,
                    nucleon_number: self.atomic_mass.saturating_round(),
                    atomic_mass: self.atomic_mass,
                })
                &&& el.state_data == (StateData {
                    boiling_point: self.boil,
                    melting_point: self.melt,
                })
                &&& el.electron_data.shells@ == padded(self.shells@, 8, 0u8)
                &&& el.electron_data.ionisation_energies@ == padded(
                    self.ionization_energies@,
                    30,
                    Binary64 { bits: 0 },
                )
                &&& levels_in_order(el.electron_data.electron_configuration@)
                &&& configuration_outcome(self.electron_configuration@) == Ok::<
                    Seq<Occupancy>,
                    ErrorView,
                >(el.electron_data.electron_configuration.counts())
                &&& el.electron_data.electron_affinity == self.electron_affinity
                &&& el.electron_data.electronegativity == self.electronegativity_pauling
            },
    {
        let n_shells = self.shells.len();
        if n_shells > SHELL_SLOTS {
            return Err(too_many("shells", SHELL_SLOTS, n_shells));
        }
        let n_energies = self.ionization_energies.len();
        if n_energies > IONISATION_SLOTS {
            return Err(too_many("ionization_energies", IONISATION_SLOTS, n_energies));
        }
        let electron_configuration = match parse_configuration(self.electron_configuration.as_str()) {
            Ok(c) => c,
            Err(cause) => return Err(field_failed("electron_configuration", cause)),
        };
        let mut shells = [0u8; 8];
        let mut i: usize = 0;
        while i < n_shells
            invariant
                n_shells == self.shells@.len() <= 8,
                i <= n_shells,
                forall|k: int| 0 <= k < i ==> shells[k] == self.shells@[k],
                forall|k: int| i <= k < 8 ==> shells[k] == 0,
            decreases n_shells - i,
        {
            shells[i] = self.shells[i];
            i = i + 1;
        }
        assert(shells@ =~= padded(self.shells@, 8, 0u8));
        let mut ionisation_energies = [Binary64::zero(); 30];
        let mut i: usize = 0;
        while i < n_energies
            invariant
                n_energies == self.ionization_energies@.len() <= 30,
                i <= n_energies,
                forall|k: int|
                    0 <= k < i ==> ionisation_energies[k] == self.ionization_energies@[k],
                forall|k: int| i <= k < 30 ==> ionisation_energies[k] == (Binary64 { bits: 0 }),
            decreases n_energies - i,
        {
            ionisation_energies[i] = self.ionization_energies[i];
            i = i + 1;
        }
        assert(ionisation_energies@ =~= padded(
            self.ionization_energies@,
            30,
            Binary64 { bits: 0 },
        ));
        Ok(
            InnerElement {
                name: self.name,
                symbol: self.symbol,
                description: self.summary,
                atomic_data: AtomicData {
                    atomic_number: self.number,
                    nucleon_number: self.atomic_mass.round_to_u16(),
                    atomic_mass: self.atomic_mass,
                },
                state_data: StateData { boiling_point: self.boil, melting_point: self.melt },
                electron_data: ElectronData {
                    shells,
                    ionisation_energies,
                    electron_configuration,
                    electron_affinity: self.electron_affinity,
                    electronegativity: self.electronegativity_pauling,
                },
            },
        )
    }
}

} // verus!
