use std::hash::Hasher;

use neodiff::error::Error;
use neodiff::evm_log::EVMLog;
use neodiff::oracle::{DiffOracle, DiffResult, Report};
use neodiff::trace::{trace_log, Step, Trace};
use neodiff::type_hash::TypeHash;

fn text(s: &str) -> Option<String> {
    Some(s.to_string())
}

fn entry(pc: u64, op: u8, stack: &[&str], memory: &str) -> EVMLog {
    EVMLog {
        pc: Some(pc),
        error: None,
        gas_cost: text("0x3"),
        memory: text(memory),
        output: None,
        op: Some(op),
        stack: Some(stack.iter().map(|s| s.to_string()).collect()),
    }
}

fn stop(error: &str) -> EVMLog {
    EVMLog {
        pc: None,
        error: text(error),
        gas_cost: None,
        memory: None,
        output: text(""),
        op: None,
        stack: None,
    }
}

/// Pushes a value and stops.
fn push_log(value: &str) -> Vec<EVMLog> {
    vec![entry(0, 0x60, &[], "0x"), entry(2, 0x50, &[value], "0x"), entry(3, 0, &[], "0x")]
}

fn is_new(oracle: &mut DiffOracle, first: &Vec<EVMLog>, second: &Vec<EVMLog>) -> bool {
    oracle.observers_cmp(first, second).unwrap()
}

fn step(checksum: u64, is_error: bool, opcode: u8, pc: u64) -> Step {
    let type_hash = TypeHash { mem_flag: false, t1: 1, t2: 0, opcode };
    Step { checksum, type_hash, is_error, op: opcode, pc }
}

fn trace(steps: Vec<Step>) -> Trace {
    Trace { steps, complete: true }
}

#[test]
fn equal_logs_are_no_difference() {
    let mut oracle = DiffOracle::new();
    assert!(!is_new(&mut oracle, &push_log("1"), &push_log("1")));
    assert!(!is_new(&mut oracle, &vec![], &vec![]));
    assert!(oracle.opcodes.is_empty());
    assert_eq!(oracle.last.first_pc, 0);
}

#[test]
fn different_values_are_reported_once() {
    let mut oracle = DiffOracle::new();
    assert!(is_new(&mut oracle, &push_log("1"), &push_log("2")));
    let class = TypeHash { mem_flag: false, t1: 1, t2: 0, opcode: 0x60 };
    assert_eq!(oracle.last, Report { first: class, second: class, first_pc: 0, second_pc: 0 });
    assert_eq!(oracle.opcodes.iter().copied().collect::<Vec<_>>(), vec![0x60]);
    // The same kind of difference is not new, whatever the values are.
    assert!(!is_new(&mut oracle, &push_log("1"), &push_log("2")));
    assert!(!is_new(&mut oracle, &push_log("3"), &push_log("4")));
    // Another class is.
    assert!(is_new(&mut oracle, &push_log("1"), &push_log("0x2")));
    assert!(is_new(&mut oracle, &push_log("0x2"), &push_log("1")));
}

#[test]
fn trailing_zeros_of_the_memory_do_not_count() {
    let log = |memory: &str| vec![entry(0, 0x60, &[], memory), entry(2, 0x50, &["1"], "0x")];
    let mut oracle = DiffOracle::new();
    assert!(!is_new(&mut oracle, &log("0x10"), &log("0x1000")));
    assert!(!is_new(&mut oracle, &log("000"), &log("0000000")));
    assert!(is_new(&mut oracle, &log("0x10"), &log("0x1001")));
}

#[test]
fn gas_and_opcodes_count() {
    let mut oracle = DiffOracle::new();
    let mut costly = push_log("1");
    costly[0].gas_cost = text("0x4");
    assert!(is_new(&mut oracle, &push_log("1"), &costly));
    let mut other = push_log("1");
    other[0].op = Some(0x61);
    assert!(is_new(&mut oracle, &push_log("1"), &other));
    // The opcodes differ, so none is added for this report.
    assert_eq!(oracle.opcodes.len(), 1);
}

#[test]
fn failure_of_one_side_is_a_difference() {
    let failing = vec![entry(0, 0x60, &[], "0x"), stop("out of gas")];
    let mut oracle = DiffOracle::new();
    assert!(is_new(&mut oracle, &push_log("1"), &failing));
    assert!(is_new(&mut oracle, &failing, &push_log("1")));
    // Two failures are none, even with different checksums.
    let mut costly = vec![entry(0, 0x60, &[], "0x"), stop("stack underflow")];
    costly[0].gas_cost = text("0x4");
    assert!(!is_new(&mut oracle, &failing, &costly));
}

#[test]
fn steps_of_one_side_alone_do_not_count() {
    let mut oracle = DiffOracle::new();
    let longer = push_log("1");
    let shorter = vec![entry(0, 0x60, &[], "0x"), entry(2, 0x50, &["1"], "0x")];
    assert!(!is_new(&mut oracle, &longer, &shorter));
    assert!(!is_new(&mut oracle, &shorter, &longer));
}

#[test]
fn incomplete_logs() {
    let mut oracle = DiffOracle::new();
    let mut no_pc = push_log("1");
    no_pc[1].pc = None;
    let mut no_memory = push_log("1");
    no_memory[0].memory = None;
    for bad in [&no_pc, &no_memory] {
        assert!(matches!(oracle.observers_cmp(bad, &push_log("1")), Err(Error::IncompleteLog)));
        assert!(matches!(oracle.observers_cmp(&push_log("1"), bad), Err(Error::IncompleteLog)));
    }
    // A difference before the missing field is found in the second log.
    assert!(is_new(&mut oracle, &push_log("2"), &no_pc));
    assert!(oracle.observers_cmp(&no_pc, &push_log("2")).is_err());
}

#[test]
fn runs_are_counted() {
    let mut oracle = DiffOracle::new();
    let (one, two) = (push_log("1"), push_log("2"));
    assert_eq!(oracle.compare_runs(&one, &one).unwrap(), DiffResult::Equal);
    assert_eq!(oracle.compare_runs(&one, &two).unwrap(), DiffResult::Diff);
    assert_eq!(oracle.compare_runs(&one, &two).unwrap(), DiffResult::Equal);
    let mut bad = push_log("1");
    bad[0].pc = None;
    assert!(oracle.compare_runs(&bad, &two).is_err());
    assert_eq!(oracle.execs, 4);
}

#[test]
fn traces_of_given_steps() {
    let mut oracle = DiffOracle::new();
    let first = trace(vec![step(1, false, 1, 10), step(2, false, 2, 11)]);
    let second = trace(vec![step(1, false, 1, 20), step(3, false, 2, 21), step(4, true, 3, 22)]);
    assert!(oracle.judge(&first, &second).unwrap());
    assert_eq!((oracle.last.first_pc, oracle.last.second_pc), (11, 21));
    assert!(!oracle.judge(&first, &second).unwrap());
    assert!(!oracle.judge(&first, &first).unwrap());
    let both_failed = trace(vec![step(7, true, 9, 0)]);
    assert!(!oracle.judge(&both_failed, &trace(vec![step(8, true, 9, 0)])).unwrap());
    assert!(oracle.judge(&both_failed, &trace(vec![step(7, false, 9, 0)])).unwrap());
}

#[test]
fn first_difference_decides_alone() {
    let mut oracle = DiffOracle::new();
    let known = trace(vec![step(1, false, 1, 0)]);
    assert!(oracle.judge(&known, &trace(vec![step(2, false, 1, 0)])).unwrap());
    // The first difference is known: a new one behind it is not reported.
    let first = trace(vec![step(1, false, 1, 0), step(1, false, 5, 1)]);
    let second = trace(vec![step(2, false, 1, 0), step(2, false, 5, 1)]);
    assert!(!oracle.judge(&first, &second).unwrap());
    assert_eq!(oracle.opcodes.len(), 1);
}

#[test]
fn trace_of_a_log() {
    let fresh = ahash::AHasher::default();
    let mut log = push_log("1");
    log.insert(2, stop("bad"));
    let steps = trace_log(fresh.clone(), &log).steps;
    assert_eq!(steps.len(), 2);
    assert_eq!((steps[0].op, steps[0].pc, steps[0].is_error), (0x60, 0, false));
    assert_eq!((steps[1].op, steps[1].pc, steps[1].is_error), (0x50, 2, true));
    // The second step failed: it adds nothing to the checksum.
    assert_eq!(steps[0].checksum, steps[1].checksum);
    // A beginning of the log has a beginning of the steps.
    let begun = trace_log(fresh, &vec![entry(0, 0x60, &[], "0x"), entry(2, 0x50, &["1"], "0x")]);
    assert_eq!(begun.steps, vec![steps[0]]);
    assert!(begun.complete);
}

#[test]
fn checksums_follow_the_hasher() {
    let log = vec![entry(0, 0x60, &[], "0x100"), entry(2, 0x50, &["a", "b"], "0x")];
    let mut hasher = ahash::AHasher::default();
    for bytes in [&b"b"[..], &b"a"[..], &b"0x1"[..], &[0x60u8][..], &b"0x3"[..]] {
        hasher.write(bytes);
    }
    let steps = trace_log(ahash::AHasher::default(), &log).steps;
    assert_eq!(steps[0].checksum, hasher.finish());
}

#[test]
fn failures_stick_to_later_steps() {
    let mut log = vec![entry(0, 1, &[], "0x"), entry(1, 2, &[], "0x"), entry(2, 3, &[], "0x")];
    log[0].error = text("bad");
    let steps = trace_log(ahash::AHasher::default(), &log).steps;
    assert_eq!(steps.iter().map(|s| s.is_error).collect::<Vec<_>>(), vec![true, true]);
}

#[test]
fn findings_fit_together() {
    let mut oracle = DiffOracle::new();
    assert!(is_new(&mut oracle, &push_log("1"), &push_log("2")));
    let mut other = push_log("1");
    other[0].op = Some(0x61);
    assert!(is_new(&mut oracle, &push_log("1"), &other));
    // Two pairs were reported; only the first has the same opcode on both sides.
    assert_eq!(oracle.seen.len(), 2);
    assert_eq!(oracle.opcodes.iter().copied().collect::<Vec<_>>(), vec![0x60]);
    assert_eq!((oracle.last.first.opcode, oracle.last.second.opcode), (0x60, 0x61));
}

#[test]
fn failed_steps_leave_the_checksum() {
    let mut log = vec![entry(0, 1, &[], "0x"), entry(1, 2, &["1"], "0x"), entry(2, 3, &[], "0x")];
    log[0].error = text("bad");
    let steps = trace_log(ahash::AHasher::default(), &log).steps;
    let fresh = ahash::AHasher::default();
    assert_eq!(steps[0].checksum, fresh.finish());
    // The next step did not fail by itself and is added.
    assert_ne!(steps[1].checksum, fresh.finish());
    assert!(steps[1].is_error);
}

#[test]
fn steps_without_a_stack_add_opcode_and_gas() {
    let log = vec![entry(0, 0x60, &[], "0x10"), entry(2, 0, &["1"], "0x")];
    let mut hasher = ahash::AHasher::default();
    hasher.write(&[0x60]);
    hasher.write(b"0x3");
    let steps = trace_log(ahash::AHasher::default(), &log).steps;
    assert_eq!(steps[0].checksum, hasher.finish());
}
