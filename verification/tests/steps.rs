use neodiff::evm_log::{collect_log, EVMLog};
use neodiff::step::{classify, classify_item, classify_stack};
use neodiff::type_hash::TypeHash;

fn text(s: &str) -> Option<String> {
    Some(s.to_string())
}

fn entry(op: u8, stack: &[&str], memory: &str) -> EVMLog {
    EVMLog {
        pc: Some(0),
        error: None,
        gas_cost: text("0x3"),
        memory: text(memory),
        output: None,
        op: Some(op),
        stack: Some(stack.iter().map(|s| s.to_string()).collect()),
    }
}

#[test]
fn items_by_spelling() {
    assert_eq!(classify_item("0"), Some(1));
    assert_eq!(classify_item("ff"), Some(1));
    assert_eq!(classify_item("FFFFFFFF"), Some(1));
    assert_eq!(classify_item("+1"), Some(1));
    assert_eq!(classify_item(&"0".repeat(41)), Some(1));
    assert_eq!(classify_item("100000000"), Some(5));
    assert_eq!(classify_item(""), Some(5));
    assert_eq!(classify_item("0x1"), Some(5));
    assert_eq!(classify_item("-1"), Some(5));
    assert_eq!(classify_item(&"f".repeat(39)), Some(5));
    assert_eq!(classify_item(&"f".repeat(40)), Some(2));
    assert_eq!(classify_item(&"f".repeat(41)), None);
    assert_eq!(classify_item(&"f".repeat(42)), Some(2));
    assert_eq!(classify_item(&"f".repeat(43)), Some(3));
    // The length counts bytes.
    assert_eq!(classify_item(&"\u{e4}".repeat(20)), Some(2));
}

#[test]
fn stacks_from_the_top() {
    let stack = |items: &[&str]| classify_stack(&items.iter().map(|s| s.to_string()).collect());
    let none = "f".repeat(41);
    let long = "f".repeat(64);
    assert_eq!(stack(&[]), (0, 0));
    assert_eq!(stack(&["1"]), (1, 0));
    assert_eq!(stack(&["1", "0x1"]), (5, 1));
    assert_eq!(stack(&[&long, "1", "0x1"]), (5, 1));
    // Items without a type are skipped.
    assert_eq!(stack(&[&long, "1", &none]), (1, 3));
    assert_eq!(stack(&[&none, "1", &none]), (1, 0));
}

#[test]
fn which_entries_are_steps() {
    assert!(entry(1, &[], "0x").is_step());
    assert!(!entry(0, &[], "0x").is_step());
    assert!(!entry(253, &[], "0x").is_step());
    let mut no_op = entry(1, &[], "0x");
    no_op.op = None;
    assert!(!no_op.is_step());
    let mut no_gas = entry(1, &[], "0x");
    no_gas.gas_cost = None;
    assert!(!no_gas.is_step());
}

#[test]
fn which_steps_failed() {
    let curr = entry(1, &[], "0x");
    let mut next = entry(2, &[], "0x");
    assert!(!curr.has_failed(&next));
    next.error = text("");
    next.op = None;
    assert!(!curr.has_failed(&next));
    next.error = text("bad");
    assert!(curr.has_failed(&next));
    next.op = Some(2);
    assert!(!curr.has_failed(&next));
    next.output = text("");
    assert!(curr.has_failed(&next));
    let mut failing = entry(1, &[], "0x");
    failing.error = text("bad");
    assert!(failing.has_failed(&entry(2, &[], "0x")));
}

#[test]
fn classes_of_single_steps() {
    let ok = |hash: TypeHash, curr: &EVMLog, next: &EVMLog| assert_eq!(classify(curr, next), hash);
    let hash = |mem_flag, t1, t2, opcode| TypeHash { mem_flag, t1, t2, opcode };
    let curr = entry(0x60, &[], "0x");
    ok(hash(false, 1, 5, 0x60), &curr, &entry(1, &["0x1", "1"], "0x00"));
    ok(hash(true, 1, 0, 0x60), &entry(0x60, &[], "0x0"), &entry(1, &["1"], ""));
    // No stack is looked at where the run stops, fails, or shows none.
    ok(hash(false, 0, 0, 0x60), &entry(0x60, &[], "0x0"), &entry(0, &["1"], ""));
    let mut failed = entry(1, &["1"], "");
    failed.error = text("bad");
    failed.output = text("");
    ok(hash(false, 0, 0, 0x60), &entry(0x60, &[], "0x0"), &failed);
    let mut hidden = entry(1, &[], "");
    hidden.stack = None;
    ok(hash(false, 0, 0, 0x60), &entry(0x60, &[], "0x0"), &hidden);
}

#[test]
fn memory_is_needed_where_the_stack_shows() {
    let mut curr = entry(0x60, &[], "0x");
    assert!(curr.has_memory_if_needed(&entry(1, &[], "0x")));
    curr.memory = None;
    assert!(!curr.has_memory_if_needed(&entry(1, &[], "0x")));
    assert!(curr.has_memory_if_needed(&entry(0, &[], "0x")));
    assert_eq!(classify(&curr, &entry(0, &["1"], "0x")).opcode, 0x60);
}

#[test]
fn unparsed_lines_are_left_out() {
    let log = collect_log(vec![None, Some(entry(1, &[], "")), None, Some(entry(2, &[], ""))]);
    assert_eq!(log.iter().map(|e| e.op).collect::<Vec<_>>(), vec![Some(1), Some(2)]);
    assert_eq!(collect_log(vec![None]).len(), 0);
    assert_eq!(collect_log(vec![]).len(), 0);
}
