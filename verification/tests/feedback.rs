use neodiff::evm_log::EVMLog;
use neodiff::feedback::{EVMFeedbackState, EVMTypeHashFeedback};
use neodiff::observer::StdOutObserver;
use neodiff::trace::trace_log;
use neodiff::type_hash::TypeHash;

fn text(s: &str) -> Option<String> {
    Some(s.to_string())
}

fn entry(op: u8, stack: &[&str], memory: &str) -> EVMLog {
    EVMLog {
        pc: None,
        error: None,
        gas_cost: text("0x3"),
        memory: text(memory),
        output: None,
        op: Some(op),
        stack: Some(stack.iter().map(|s| s.to_string()).collect()),
    }
}

fn feedback(no_errors: bool) -> (EVMTypeHashFeedback, EVMFeedbackState) {
    let feedback = EVMTypeHashFeedback::new("typehash", no_errors, &StdOutObserver::new("out"));
    let state = feedback.init_state().unwrap();
    (feedback, state)
}

#[test]
fn names_are_kept() {
    let observer = StdOutObserver::new("out");
    assert_eq!(observer.name(), "out");
    assert!(observer.stdout.is_none());
    let (feedback, state) = feedback(true);
    assert_eq!(feedback.name(), "typehash");
    assert_eq!(feedback.stdout_name, "out");
    assert!(feedback.no_errors);
    assert_eq!(state.name(), "typehash");
}

#[test]
fn initial_history_is_empty() {
    let (_, state) = feedback(true);
    assert!(state.is_well_formed());
    assert_eq!(state.history.len(), 65535);
    assert!(state.history.none());
}

#[test]
fn histories_need_the_classes_of_steps() {
    for (len, enough) in
        [(0usize, false), (44543, false), (44544, true), (65534, true), (65536, true)]
    {
        let history = bit_vec::BitVec::from_elem(len, true);
        let state = EVMFeedbackState { name: "n".to_string(), history };
        assert_eq!(state.is_well_formed(), enough);
    }
}

#[test]
fn greatest_class_fits_the_shortest_history() {
    let history = bit_vec::BitVec::from_elem(44544, false);
    let mut state = EVMFeedbackState { name: "n".to_string(), history };
    let (feedback, _) = feedback(true);
    let log = vec![entry(255, &[], "0x0"), entry(1, &["0x", "0x"], "0x")];
    assert!(feedback.is_interesting(&mut state, &log).unwrap());
    assert!(state.history[44543]);
    assert!(!feedback.is_interesting(&mut state, &log).unwrap());
}

#[test]
fn new_classes_are_interesting_once() {
    let (feedback, mut state) = feedback(true);
    let log = vec![entry(1, &[], "0x"), entry(2, &["1"], "0x"), entry(0, &[], "0x")];
    assert!(feedback.is_interesting(&mut state, &log).unwrap());
    let first = TypeHash { mem_flag: false, t1: 1, t2: 0, opcode: 1 };
    let second = TypeHash { mem_flag: false, t1: 0, t2: 0, opcode: 2 };
    let set: Vec<usize> = (0..65535).filter(|i| state.history[*i]).collect();
    assert_eq!(set, vec![second.index(), first.index()]);
    assert!(!feedback.is_interesting(&mut state, &log).unwrap());
    // A log with one new class among known ones.
    let more = vec![entry(1, &[], "0x"), entry(2, &["1"], "0x"), entry(1, &["1"], "0x")];
    assert!(feedback.is_interesting(&mut state, &more).unwrap());
    assert_eq!((0..65535).filter(|i| state.history[*i]).count(), 3);
}

#[test]
fn logs_without_steps_are_not_interesting() {
    let (feedback, mut state) = feedback(true);
    assert!(!feedback.is_interesting(&mut state, &vec![]).unwrap());
    assert!(!feedback.is_interesting(&mut state, &vec![entry(1, &[], "0x")]).unwrap());
    let stopped = vec![entry(0, &[], "0x"), entry(253, &[], "0x"), entry(1, &[], "0x")];
    assert!(!feedback.is_interesting(&mut state, &stopped).unwrap());
    assert!(state.history.none());
}

#[test]
fn failed_logs_are_passed_over_if_told_so() {
    let mut log = vec![entry(1, &[], "0x"), entry(2, &["1"], "0x"), entry(3, &["1"], "0x")];
    log[2].error = text("bad");
    log[2].op = None;
    let (strict, mut state) = feedback(true);
    assert!(!strict.is_interesting(&mut state, &log).unwrap());
    assert!(state.history.none());
    let (lax, mut state) = feedback(false);
    assert!(lax.is_interesting(&mut state, &log).unwrap());
    assert_eq!((0..65535).filter(|i| state.history[*i]).count(), 2);
}

#[test]
fn logs_without_needed_memory_cannot_be_judged() {
    let (feedback, state) = feedback(true);
    let mut log = vec![entry(1, &[], "0x"), entry(2, &["1"], "0x"), entry(3, &["1"], "0x")];
    assert!(feedback.can_judge(&state, &log));
    log[2].memory = None;
    assert!(feedback.can_judge(&state, &log));
    log[1].memory = None;
    assert!(!feedback.can_judge(&state, &log));
    // The memory is not needed where the stack is not looked at, or at no step.
    log[2].op = Some(0);
    assert!(feedback.can_judge(&state, &log));
    log[2].op = Some(3);
    log[1].op = Some(253);
    assert!(feedback.can_judge(&state, &log));
    assert!(feedback.can_judge(&state, &vec![]));
    let history = bit_vec::BitVec::from_elem(44543, false);
    assert!(!feedback.can_judge(&EVMFeedbackState { name: "n".to_string(), history }, &log));
}

#[test]
fn only_places_of_steps_are_marked() {
    let (feedback, mut state) = feedback(true);
    for op in 0..=255u8 {
        let log = vec![entry(op, &[], "0x00"), entry(1, &["0x", "0x"], "0x")];
        assert_eq!(feedback.is_interesting(&mut state, &log).unwrap(), op != 0 && op != 253);
    }
    let places: Vec<usize> = (0..65535).filter(|i| state.history[*i]).collect();
    assert_eq!(places.len(), 254);
    assert!(places.iter().all(|i| *i < 44544 && i % 256 != 0 && i % 256 != 253));
}

#[test]
fn copies_have_their_own_history() {
    let (feedback, mut state) = feedback(true);
    let log = vec![entry(1, &[], "0x"), entry(2, &[], "0x")];
    let before = state.clone();
    assert!(feedback.is_interesting(&mut state, &log).unwrap());
    let mut after = state.clone();
    assert!(before.history.none());
    assert!(!feedback.is_interesting(&mut after, &log).unwrap());
    assert_eq!(after.name(), "typehash");
}

#[test]
fn marking_a_class() {
    let (_, mut state) = feedback(true);
    let class = TypeHash { mem_flag: true, t1: 5, t2: 5, opcode: 255 };
    assert!(state.mark(&class));
    assert!(!state.mark(&class));
    assert!(state.history[class.index()]);
}

#[test]
fn traces_and_feedback_see_the_same_classes() {
    let (feedback, mut state) = feedback(true);
    let mut log = vec![entry(1, &[], "0x"), entry(2, &["1", "0x"], "0x00"), entry(3, &[], "0x")];
    for line in log.iter_mut() {
        line.pc = Some(0);
    }
    assert!(feedback.is_interesting(&mut state, &log).unwrap());
    let mut places: Vec<usize> = trace_log(ahash::AHasher::default(), &log)
        .steps
        .iter()
        .map(|step| step.type_hash.index())
        .collect();
    places.sort();
    let seen: Vec<usize> = (0..65535).filter(|i| state.history[*i]).collect();
    assert_eq!(places, seen);
}
