use vstd::prelude::*;

use crate::binary64::Binary64;
use crate::configuration::ElectronConfiguration;

verus! {

/// Nucleus data of an element.
#[derive(Clone, Copy, Debug, PartialEq, Eq, Hash)]
pub struct AtomicData {
    /// Number of protons.
    pub atomic_number: u8,
    /// Number of nucleons (protons and neutrons), the atomic mass rounded.
    pub nucleon_number: u16,
    /// Atomic mass.
    pub atomic_mass: Binary64,
}

/// Phase transition temperatures, where measured.
#[derive(Clone, Copy, Debug, PartialEq, Eq, Hash)]
pub struct StateData {
    /// Boiling point in kelvin.
    pub boiling_point: Option<Binary64>,
    /// Melting point in kelvin.
    pub melting_point: Option<Binary64>,
}

/// Electron shell data of an element.
#[derive(Clone, Copy, Debug, PartialEq)]
pub struct ElectronData {
    /// Electrons per shell, zero past the outermost shell.
    pub shells: [u8; 8],
    /// Successive ionisation energies, zero past the last one known.
    pub ionisation_energies: [Binary64; 30],
    pub electron_configuration: ElectronConfiguration,
    pub electron_affinity: Option<Binary64>,
    pub electronegativity: Option<Binary64>,
}

/// Detailed, validated information about an element.
#[derive(Clone, Debug, PartialEq)]
pub struct InnerElement {
    pub name: String,
    pub symbol: String,
    pub description: String,
    pub atomic_data: AtomicData,
    pub state_data: StateData,
    pub electron_data: ElectronData,
}

} // verus!
