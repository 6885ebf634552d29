use chemistru_elements::configuration::ElectronConfiguration;
use chemistru_elements::error::ElementError;
use chemistru_elements::orbital::{
    Block, CapSubOrbital, DOrbital, FOrbital, POrbital, SOrbital, Spin, SubOrbital, Suborbital,
};

#[test]
fn block_constants() {
    assert_eq!(Block::S.capacity(), 2);
    assert_eq!(Block::P.capacity(), 6);
    assert_eq!(Block::D.capacity(), 10);
    assert_eq!(Block::F.capacity(), 14);
    assert_eq!(Block::F.angular_momentum(), 3);
    assert_eq!(Block::from_letter('d'), Some(Block::D));
    assert_eq!(Block::from_letter('g'), None);
    assert_eq!(Block::P.letter(), 'p');
    assert_eq!(SOrbital::CAPACITY, 2);
    assert_eq!(POrbital::ANGULAR_MOMENTUM, 1);
    assert_eq!(DOrbital::CAPACITY, 10);
    assert_eq!(FOrbital::ANGULAR_MOMENTUM, 3);
}

#[test]
fn suborbital_rejects_excess_electrons() {
    match POrbital::new(2, 7) {
        Err(ElementError::CapacityExceeded { context, limit, actual }) => {
            assert_eq!(context, "p");
            assert_eq!(limit, 6);
            assert_eq!(actual, 7);
        }
        other => panic!("unexpected {other:?}"),
    }
    assert!(SOrbital::new(1, 3).is_err());
    assert!(DOrbital::new(3, 11).is_err());
    assert!(FOrbital::new(4, 15).is_err());
    assert!(Suborbital::new(4, Block::F, 15).is_err());
    assert!(FOrbital::new(4, 14).is_ok());
}

#[test]
fn suborbital_descriptors() {
    let p = POrbital::new(2, 4).unwrap();
    assert_eq!(p.quantum_number(), 2);
    assert_eq!(p.electrons(), 4);
    assert_eq!(p.capacity(), 6);
    assert_eq!(p.angular_momentum(), 1);
    assert_eq!(p.magnetic_quantum_number(), 0);
    assert_eq!(p.magnetic_spin_number(), Spin::Down);

    let p = POrbital::new(2, 3).unwrap();
    assert_eq!(p.magnetic_quantum_number(), -1);
    assert_eq!(p.magnetic_spin_number(), Spin::Up);

    let s = SOrbital::new(1, 1).unwrap();
    assert_eq!(s.magnetic_quantum_number(), 0);
    assert_eq!(s.magnetic_spin_number(), Spin::Up);

    let d = DOrbital::new(3, 7).unwrap();
    assert_eq!(d.magnetic_quantum_number(), 0);
    assert_eq!(d.magnetic_spin_number(), Spin::Down);

    let f = FOrbital::new(4, 3).unwrap();
    assert_eq!(f.magnetic_quantum_number(), 0);
    assert_eq!(f.magnetic_spin_number(), Spin::Up);

    let g = Suborbital::new(5, Block::D, 2).unwrap();
    assert_eq!(g.magnetic_quantum_number(), 0);
    assert_eq!(g.capacity(), 10);
    assert!(!g.is_empty());
}

#[test]
fn set_electrons_replaces_the_count() {
    let mut d = DOrbital::new(3, 0).unwrap();
    assert!(d.is_empty());
    d.set_electrons(5);
    assert_eq!(d.electrons(), 5);
    assert_eq!(d.quantum_number(), 3);
}

#[test]
fn energy_level_ranges() {
    let config = ElectronConfiguration::new_empty();
    let level = config.level(2);
    assert_eq!(level.quantum_number(), 3);
    assert_eq!(level.possible_angular_momenta(), 0..3);
    assert_eq!(level.possible_magnetic_quantum_numbers(), -3..=3);
    assert!(level.is_empty());
}

#[test]
fn new_empty_numbers_levels() {
    let config = ElectronConfiguration::new_empty();
    for i in 0..8 {
        let level = config.level(i);
        assert_eq!(level.quantum_number() as usize, i + 1);
        assert_eq!(level.s.quantum_number() as usize, i + 1);
        assert_eq!(level.f.quantum_number() as usize, i + 1);
        assert!(level.is_empty());
    }
    let again = ElectronConfiguration::new([
        config.level(0),
        config.level(1),
        config.level(2),
        config.level(3),
        config.level(4),
        config.level(5),
        config.level(6),
        config.level(7),
    ]);
    assert_eq!(again, config);
}

#[test]
fn energy_level_set_electrons() {
    let config = ElectronConfiguration::new_empty();
    let mut level = config.level(3);
    level.set_electrons(Block::D, 10);
    assert_eq!(level.electrons(Block::D), 10);
    assert_eq!(level.electrons(Block::S), 0);
    assert!(!level.is_empty());
}
