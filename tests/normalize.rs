use chemistru_elements::binary64::Binary64;
use chemistru_elements::error::{ElementError, TokenFault};
use chemistru_elements::orbital::Block;
use chemistru_elements::raw::RawElement;

fn b(x: f64) -> Binary64 {
    Binary64::from_bits(x.to_bits())
}

fn sodium() -> RawElement {
    RawElement {
        name: "Sodium".to_string(),
        symbol: "Na".to_string(),
        summary: "A soft, silvery-white, highly reactive metal.".to_string(),
        atomic_mass: b(22.99),
        number: 11,
        boil: Some(b(1156.09)),
        melt: Some(b(370.944)),
        electron_affinity: Some(b(52.867)),
        electronegativity_pauling: Some(b(0.93)),
        shells: vec![2, 8, 1],
        electron_configuration: "1s2 2s2 2p6 3s1".to_string(),
        ionization_energies: vec![b(13.6)],
    }
}

#[test]
fn sodium_record_normalizes() {
    let el = sodium().into_inner().unwrap();
    assert_eq!(el.name, "Sodium");
    assert_eq!(el.symbol, "Na");
    assert_eq!(el.description, "A soft, silvery-white, highly reactive metal.");
    assert_eq!(el.atomic_data.atomic_number, 11);
    assert_eq!(el.atomic_data.nucleon_number, 23);
    assert_eq!(f64::from_bits(el.atomic_data.atomic_mass.to_bits()), 22.99);
    assert_eq!(el.electron_data.shells, [2, 8, 1, 0, 0, 0, 0, 0]);
    let energies = el.electron_data.ionisation_energies;
    assert_eq!(f64::from_bits(energies[0].to_bits()), 13.6);
    for e in &energies[1..] {
        assert_eq!(f64::from_bits(e.to_bits()), 0.0);
    }
    assert_eq!(energies.len(), 30);
    let config = el.electron_data.electron_configuration;
    let first = config.level(0);
    assert_eq!(
        [
            first.electrons(Block::S),
            first.electrons(Block::P),
            first.electrons(Block::D),
            first.electrons(Block::F)
        ],
        [2, 0, 0, 0]
    );
    assert_eq!(config.level(1).electrons(Block::S), 2);
    assert_eq!(config.level(1).electrons(Block::P), 6);
    assert_eq!(config.level(2).electrons(Block::S), 1);
    assert_eq!(config.shells().len(), 3);
    assert_eq!(el.state_data.boiling_point, Some(b(1156.09)));
    assert_eq!(el.state_data.melting_point, Some(b(370.944)));
    assert_eq!(el.electron_data.electron_affinity, Some(b(52.867)));
    assert_eq!(el.electron_data.electronegativity, Some(b(0.93)));
}

#[test]
fn absent_transitions_stay_absent() {
    let mut raw = sodium();
    raw.melt = None;
    raw.boil = None;
    raw.electron_affinity = None;
    raw.electronegativity_pauling = None;
    let el = raw.into_inner().unwrap();
    assert_eq!(el.state_data.melting_point, None);
    assert_eq!(el.state_data.boiling_point, None);
    assert_eq!(el.electron_data.electron_affinity, None);
    assert_eq!(el.electron_data.electronegativity, None);
}

#[test]
fn nine_shells_are_too_many() {
    let mut raw = sodium();
    raw.shells = vec![2, 8, 18, 32, 32, 18, 8, 1, 1];
    match raw.into_inner() {
        Err(ElementError::CapacityExceeded { context, limit, actual }) => {
            assert_eq!(context, "shells");
            assert_eq!(limit, 8);
            assert_eq!(actual, 9);
        }
        other => panic!("unexpected {other:?}"),
    }
}

#[test]
fn eight_shells_fit() {
    let mut raw = sodium();
    raw.shells = vec![2, 8, 18, 32, 32, 18, 8, 1];
    let el = raw.into_inner().unwrap();
    assert_eq!(el.electron_data.shells, [2, 8, 18, 32, 32, 18, 8, 1]);
}

#[test]
fn thirty_one_energies_are_too_many() {
    let mut raw = sodium();
    raw.ionization_energies = (0..31).map(|i| b(i as f64)).collect();
    match raw.into_inner() {
        Err(ElementError::CapacityExceeded { context, limit, actual }) => {
            assert_eq!(context, "ionization_energies");
            assert_eq!(limit, 30);
            assert_eq!(actual, 31);
        }
        other => panic!("unexpected {other:?}"),
    }
}

#[test]
fn thirty_energies_fit() {
    let mut raw = sodium();
    raw.ionization_energies = (0..30).map(|i| b(i as f64 + 0.5)).collect();
    let el = raw.into_inner().unwrap();
    for (i, e) in el.electron_data.ionisation_energies.iter().enumerate() {
        assert_eq!(f64::from_bits(e.to_bits()), i as f64 + 0.5);
    }
}

#[test]
fn bad_configuration_names_the_field() {
    let mut raw = sodium();
    raw.electron_configuration = "1s2 2s2 2x6".to_string();
    match raw.into_inner() {
        Err(ElementError::NormalizationFailed { field, cause }) => {
            assert_eq!(field, "electron_configuration");
            match *cause {
                ElementError::InvalidBlockLetter { token, letter } => {
                    assert_eq!(token, "2x6");
                    assert_eq!(letter, 'x');
                }
                other => panic!("unexpected cause {other:?}"),
            }
        }
        other => panic!("unexpected {other:?}"),
    }

    let mut raw = sodium();
    raw.electron_configuration = "1s2 2s".to_string();
    match raw.into_inner() {
        Err(ElementError::NormalizationFailed { field, cause }) => {
            assert_eq!(field, "electron_configuration");
            assert!(matches!(
                *cause,
                ElementError::MalformedToken { reason: TokenFault::MissingCount, .. }
            ));
        }
        other => panic!("unexpected {other:?}"),
    }
}

#[test]
fn shell_list_is_checked_before_configuration() {
    let mut raw = sodium();
    raw.shells = vec![1; 9];
    raw.electron_configuration = "1q2".to_string();
    assert!(matches!(
        raw.into_inner(),
        Err(ElementError::CapacityExceeded { limit: 8, .. })
    ));
}
