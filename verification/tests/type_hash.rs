use neodiff::type_hash::{TypeHash, HISTORY_LEN, STEP_CLASSES_LEN};
use packed_struct::types::bits::Bits;
use packed_struct::types::{Integer, SizedInteger};

fn class(mem_flag: bool, t1: u8, t2: u8, opcode: u8) -> TypeHash {
    TypeHash { mem_flag, t1, t2, opcode }
}

#[test]
fn default_class_is_all_zero() {
    assert_eq!(TypeHash::default(), class(false, 0, 0, 0));
    assert_eq!(TypeHash::default().index(), 0);
    assert_eq!(TypeHash::default().pack(), [0, 0]);
}

#[test]
fn packed_form() {
    assert_eq!(class(true, 0, 0, 0).pack(), [0x80, 0x00]);
    assert_eq!(class(false, 1, 0, 0).pack(), [0x08, 0x00]);
    assert_eq!(class(false, 0, 1, 0).pack(), [0x01, 0x00]);
    assert_eq!(class(true, 5, 3, 0x60).pack(), [0xab, 0x60]);
    assert_eq!(class(true, 15, 7, 255).pack(), [0xff, 0xff]);
    assert_eq!(class(true, 5, 3, 0x60).index(), 0xab60);
    assert_eq!(class(true, 15, 7, 255).index(), HISTORY_LEN);
}

#[test]
fn types_are_masked_to_their_bits() {
    for t in 0..=255u8 {
        let four: Integer<u8, Bits<4>> = t.into();
        let three: Integer<u8, Bits<3>> = t.into();
        assert_eq!(class(false, t, 0, 9).pack(), [four.to_msb_bytes().unwrap()[0] << 3, 9]);
        assert_eq!(class(false, 0, t, 9).pack(), [three.to_msb_bytes().unwrap()[0], 9]);
    }
}

#[test]
fn classes_of_steps_fit_and_differ() {
    let types = [0u8, 1, 2, 3, 5];
    let mut seen = vec![false; STEP_CLASSES_LEN];
    let mut labels = std::collections::HashSet::new();
    for mem_flag in [false, true] {
        for t1 in types {
            for t2 in types {
                if t1 == 0 && t2 != 0 {
                    continue;
                }
                for opcode in 0..=255u8 {
                    let hash = class(mem_flag, t1, t2, opcode);
                    assert!(!seen[hash.index()]);
                    seen[hash.index()] = true;
                    assert!(labels.insert(hash.tostr()));
                }
            }
        }
    }
}

#[test]
fn labels() {
    assert_eq!(class(false, 0, 0, 0).tostr(), "0_");
    assert_eq!(class(false, 1, 0, 9).tostr(), "9_1");
    assert_eq!(class(true, 0, 0, 10).tostr(), "10_6");
    assert_eq!(class(true, 1, 5, 96).tostr(), "96_156");
    assert_eq!(class(false, 0, 3, 255).tostr(), "255_3");
    assert_eq!(class(false, 100, 0, 101).tostr(), "101_100");
}
