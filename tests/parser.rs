use chemistru_elements::configuration::ElectronConfiguration;
use chemistru_elements::error::{ElementError, TokenFault};
use chemistru_elements::orbital::{Block, SubOrbital};
use chemistru_elements::parser::{parse_configuration, parse_suborbital};

const BLOCKS: [(Block, char, u8); 4] = [
    (Block::S, 's', 2),
    (Block::P, 'p', 6),
    (Block::D, 'd', 10),
    (Block::F, 'f', 14),
];

#[test]
fn valid_tokens_read_back() {
    for n in 1u8..=8 {
        for (block, letter, capacity) in BLOCKS {
            for k in 0..=capacity {
                let token = format!("{n}{letter}{k}");
                let orbital = parse_suborbital(&token).unwrap();
                assert_eq!(orbital.quantum_number(), n);
                assert_eq!(orbital.block(), block);
                assert_eq!(orbital.electrons(), k);

                let config = parse_configuration(&token).unwrap();
                let level = config.level((n - 1) as usize);
                assert_eq!(level.quantum_number(), n);
                assert_eq!(level.electrons(block), k);
            }
        }
    }
}

#[test]
fn overfull_tokens_fail() {
    for n in 1u8..=8 {
        for (_, letter, capacity) in BLOCKS {
            for k in [capacity as usize + 1, 99, 1000] {
                let token = format!("{n}{letter}{k}");
                match parse_configuration(&token) {
                    Err(ElementError::CapacityExceeded { context, limit, actual }) => {
                        assert_eq!(context, token);
                        assert_eq!(limit, capacity as usize);
                        assert_eq!(actual, k);
                    }
                    other => panic!("unexpected {other:?}"),
                }
            }
        }
    }
}

#[test]
fn overfull_token_fails_whole_configuration() {
    let r = parse_configuration("1s2 2s2 2p7 3s1");
    match r {
        Err(ElementError::CapacityExceeded { context, limit, actual }) => {
            assert_eq!(context, "2p7");
            assert_eq!(limit, 6);
            assert_eq!(actual, 7);
        }
        other => panic!("unexpected {other:?}"),
    }
}

#[test]
fn huge_count_saturates() {
    match parse_suborbital("1s99999999999999999999999999") {
        Err(ElementError::CapacityExceeded { actual, limit, .. }) => {
            assert_eq!(actual, usize::MAX);
            assert_eq!(limit, 2);
        }
        other => panic!("unexpected {other:?}"),
    }
}

#[test]
fn parsing_twice_gives_equal_configurations() {
    let s = "1s2 2s2 2p6 3s2 3p6 4s2 3d10 4p6 5s2 4d10 5p6 6s2 4f14 5d10 6p6 7s2 5f3 6d1";
    let first = parse_configuration(s).unwrap();
    let second = parse_configuration(s).unwrap();
    assert_eq!(first, second);
}

#[test]
fn shells_of_empty_configuration() {
    assert!(ElectronConfiguration::new_empty().shells().is_empty());
}

#[test]
fn shells_stop_at_first_empty_level() {
    let config = parse_configuration("1s2 2s2 2p6 3s1").unwrap();
    let shells = config.shells();
    assert_eq!(shells.len(), 3);
    for (i, level) in shells.iter().enumerate() {
        assert_eq!(level.quantum_number() as usize, i + 1);
    }

    let gap = parse_configuration("1s2 3s1").unwrap();
    assert_eq!(gap.shells().len(), 1);

    let full = parse_configuration("1s2 2s2 3s2 4s2 5s2 6s2 7s2 8s2").unwrap();
    assert_eq!(full.shells().len(), 8);
}

#[test]
fn sodium_configuration() {
    let config = parse_configuration("1s2 2s2 2p6 3s1").unwrap();
    let first = config.level(0);
    assert_eq!(first.electrons(Block::S), 2);
    assert_eq!(first.electrons(Block::P), 0);
    assert_eq!(first.electrons(Block::D), 0);
    assert_eq!(first.electrons(Block::F), 0);
    assert_eq!(config.level(1).electrons(Block::S), 2);
    assert_eq!(config.level(1).electrons(Block::P), 6);
    assert_eq!(config.level(2).electrons(Block::S), 1);
    assert!(config.level(3).is_empty());
}

#[test]
fn later_token_overwrites_slot() {
    let config = parse_configuration("1s1 1s2").unwrap();
    assert_eq!(config.level(0).electrons(Block::S), 2);
}

#[test]
fn whitespace_runs_separate_tokens() {
    let config = parse_configuration("  1s2\t2s2\n\n2p3  ").unwrap();
    assert_eq!(config.level(0).electrons(Block::S), 2);
    assert_eq!(config.level(1).electrons(Block::S), 2);
    assert_eq!(config.level(1).electrons(Block::P), 3);
}

#[test]
fn empty_string_gives_empty_configuration() {
    assert_eq!(parse_configuration("").unwrap(), ElectronConfiguration::new_empty());
    assert_eq!(parse_configuration("   ").unwrap(), ElectronConfiguration::new_empty());
}

#[test]
fn unknown_block_letter_is_rejected() {
    match parse_configuration("1g2") {
        Err(ElementError::InvalidBlockLetter { token, letter }) => {
            assert_eq!(token, "1g2");
            assert_eq!(letter, 'g');
        }
        other => panic!("unexpected {other:?}"),
    }
}

#[test]
fn non_ascii_letter_is_a_block_letter() {
    match parse_suborbital("2é3") {
        Err(ElementError::InvalidBlockLetter { token, letter }) => {
            assert_eq!(token, "2é3");
            assert_eq!(letter, 'é');
        }
        other => panic!("unexpected {other:?}"),
    }
}

#[test]
fn non_letters_inside_a_token_are_skipped() {
    let orbital = parse_suborbital("(2→p6)").unwrap();
    assert_eq!(orbital.quantum_number(), 2);
    assert_eq!(orbital.block(), Block::P);
    assert_eq!(orbital.electrons(), 6);
}

fn fault_of(token: &str) -> TokenFault {
    match parse_suborbital(token) {
        Err(ElementError::MalformedToken { token: t, reason }) => {
            assert_eq!(t, token);
            reason
        }
        other => panic!("unexpected {other:?}"),
    }
}

#[test]
fn malformed_tokens_name_their_fault() {
    assert_eq!(fault_of("12"), TokenFault::MissingBlockLetter);
    assert_eq!(fault_of("s2"), TokenFault::MissingShell);
    assert_eq!(fault_of("2p"), TokenFault::MissingCount);
    assert_eq!(fault_of("0s1"), TokenFault::ShellOutOfRange);
    assert_eq!(fault_of("9s1"), TokenFault::ShellOutOfRange);
}

#[test]
fn first_digit_and_first_letter_are_taken() {
    let orbital = parse_suborbital("34pd5").unwrap();
    assert_eq!(orbital.quantum_number(), 3);
    assert_eq!(orbital.block(), Block::P);
    assert_eq!(orbital.electrons(), 5);
}

#[test]
fn count_digits_are_read_in_base_ten() {
    let orbital = parse_suborbital("4f14").unwrap();
    assert_eq!(orbital.electrons(), 14);
    let orbital = parse_suborbital("4f0014").unwrap();
    assert_eq!(orbital.electrons(), 14);
}
