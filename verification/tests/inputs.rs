use neodiff::generator::{HasRand, RandHexGenerator};
use neodiff::hex_input::HexInput;
use neodiff::oracle::{DiffOracle, Report};
use neodiff::type_hash::TypeHash;

/// A state that hands out given numbers and records the bounds.
struct Draws {
    numbers: Vec<u64>,
    bounds: Vec<u64>,
}

impl HasRand for Draws {
    fn below(&mut self, upper_bound_excl: u64) -> u64 {
        self.bounds.push(upper_bound_excl);
        self.numbers.remove(0)
    }
}

fn draws(numbers: &[u64]) -> Draws {
    Draws { numbers: numbers.to_vec(), bounds: vec![] }
}

#[test]
fn target_bytes_are_hexadecimal() {
    assert_eq!(HexInput::new(vec![]).target_bytes(), b"");
    assert_eq!(HexInput::new(vec![0x00, 0x7f, 0xa0, 0xff]).target_bytes(), b"007fa0ff");
    assert_eq!(HexInput::new(vec![1, 2, 3, 15, 16]).target_bytes(), b"0102030f10");
}

#[test]
fn target_bytes_are_digits_and_tell_inputs_apart() {
    let mut seen = std::collections::HashSet::new();
    for byte in 0..=255u8 {
        let target = HexInput::new(vec![byte]).target_bytes();
        assert_eq!(target.len(), 2);
        assert!(target.iter().all(|b| b"0123456789abcdef".contains(b)));
        assert!(seen.insert(target));
    }
}

#[test]
fn raw_bytes() {
    let mut input = HexInput::new(vec![1, 2]);
    assert_eq!(input.bytes(), &[1, 2]);
    assert_eq!(input.len(), 2);
    input.bytes_mut().push(3);
    assert_eq!(input.bytes(), &[1, 2, 3]);
    assert_eq!(HexInput::default().len(), 0);
}

#[test]
fn generated_inputs_follow_the_draws() {
    let mut generator = RandHexGenerator::new(32);
    let mut state = draws(&[3, 0, 255, 258]);
    let input = generator.generate(&mut state).unwrap();
    assert_eq!(input.bytes(), &[0, 255, 2]);
    assert_eq!(state.bounds, vec![32, 256, 256, 256]);
}

#[test]
fn generated_inputs_have_a_byte_where_there_is_room() {
    let mut generator = RandHexGenerator::new(1);
    let mut state = draws(&[0, 7]);
    assert_eq!(generator.generate(&mut state).unwrap().bytes(), &[7]);
    assert_eq!(state.bounds, vec![1, 256]);
    assert_eq!(generator.clone().max_size, 1);
}

#[test]
fn no_room_gives_empty_inputs() {
    let mut state = draws(&[0]);
    assert_eq!(RandHexGenerator::new(0).generate(&mut state).unwrap().len(), 0);
    assert_eq!(state.bounds, vec![0]);
}

#[test]
fn dummies_are_zeros() {
    let mut state = draws(&[]);
    assert_eq!(RandHexGenerator::new(0).generate_dummy(&mut state).len(), 0);
    assert_eq!(RandHexGenerator::new(3).generate_dummy(&mut state).bytes(), &[0, 0, 0]);
    assert_eq!(RandHexGenerator::new(64).generate_dummy(&mut state).bytes(), &[0; 64]);
    assert_eq!(RandHexGenerator::new(1000).generate_dummy(&mut state).bytes(), &[0; 64]);
}

#[test]
fn names_of_solutions() {
    let mut oracle = DiffOracle::new();
    let input = HexInput::new(vec![]);
    assert_eq!(input.generate_name(0, &oracle, 0), "typehash_0_-0__pc:0-0_time:0_execs:0");
    oracle.last = Report {
        first: TypeHash { mem_flag: true, t1: 1, t2: 5, opcode: 96 },
        second: TypeHash { mem_flag: false, t1: 3, t2: 0, opcode: 1 },
        first_pc: 10,
        second_pc: u64::MAX,
    };
    oracle.execs = 1234567;
    assert_eq!(
        input.generate_name(7, &oracle, 90),
        "typehash_96_156-1_3_pc:10-18446744073709551615_time:90_execs:1234567"
    );
}
