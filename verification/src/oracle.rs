//! The difference oracle: it compares the logs of two EVMs and reports each kind of
//! difference once.

use vstd::prelude::*;
use std::collections::HashSet;
use ahash::AHasher;
use crate::checksum::{copy_hasher, new_hasher};
use crate::error::Error;
use crate::evm_log::{entries, EVMLog, LogEntry};
use crate::trace::{law_failure_stays, readable_len, readable_steps, trace_log, Step, Trace};
use crate::type_hash::TypeHash;

verus! {

/// A reported difference: the classes and the program counters of the two steps.
#[derive(Clone, Copy, PartialEq, Eq, Structural, Debug)]
pub struct Report {
    pub first: TypeHash,
    pub second: TypeHash,
    pub first_pc: u64,
    pub second_pc: u64,
}

/// The outcome of one comparison.
#[derive(Clone, Copy, PartialEq, Eq, Structural, Debug)]
pub enum DiffResult {
    /// No difference, or one of a kind that was reported before.
    Equal,
    /// A difference of a new kind.
    Diff,
}

/// What the comparisons so far have found.
#[derive(Debug)]
pub struct DiffOracle {
    /// The hasher from which every checksum starts.
    pub fresh: AHasher,
    /// The keys of the pairs of classes that were reported.
    pub seen: HashSet<u64>,
    /// The opcodes on which both sides differed.
    pub opcodes: HashSet<u64>,
    /// The last report.
    pub last: Report,
    /// How many runs were compared.
    pub execs: usize,
}

/// A number for each class.
pub open spec fn class_key(class: TypeHash) -> int {
    (((if class.mem_flag {
        1int
    } else {
        0
    }) * 256 + class.t1 as int) * 256 + class.t2 as int) * 256 + class.opcode as int
}

/// A number for each pair of classes.
pub open spec fn pair_key(first: TypeHash, second: TypeHash) -> int {
    class_key(first) * 0x200_0000 + class_key(second)
}

/// Different pairs of classes have different keys, which fit in 64 bits.
proof fn lemma_pair_key(a: (TypeHash, TypeHash), b: (TypeHash, TypeHash))
    ensures
        0 <= pair_key(a.0, a.1) <= u64::MAX,
        pair_key(a.0, a.1) == pair_key(b.0, b.1) ==> a == b,
{
    assert(0 <= class_key(a.0) < 0x200_0000);
    assert(0 <= class_key(a.1) < 0x200_0000);
    assert(0 <= class_key(b.0) < 0x200_0000);
    assert(0 <= class_key(b.1) < 0x200_0000);
}

fn class_key_of(class: &TypeHash) -> (key: u64)
    ensures
        key == class_key(*class),
        key < 0x200_0000,
{
    let flag: u64 = if class.mem_flag {
        1
    } else {
        0
    };
    ((flag * 256 + class.t1 as u64) * 256 + class.t2 as u64) * 256 + class.opcode as u64
}

/// Whether two steps at the same place of two traces differ: one side failed and the other
/// did not, or neither failed and the checksums differ.
pub open spec fn steps_differ(first: Step, second: Step) -> bool {
    ||| first.is_error != second.is_error
    ||| !first.is_error && first.checksum != second.checksum
}

/// The first place from `from` on at which two traces differ, if there is one.
pub open spec fn first_difference_from(first: Seq<Step>, second: Seq<Step>, from: nat) -> Option<
    nat,
>
    decreases first.len() - from,
{
    if from >= first.len() || from >= second.len() {
        None
    } else if steps_differ(first[from as int], second[from as int]) {
        Some(from)
    } else {
        first_difference_from(first, second, from + 1)
    }
}

/// The first place at which two traces differ, if there is one. Steps that only one trace
/// has do not count.
pub open spec fn first_difference(first: Seq<Step>, second: Seq<Step>) -> Option<nat> {
    first_difference_from(first, second, 0)
}

impl DiffOracle {
    /// The oracle with one more run counted.
    pub open spec fn with_one_more_run(self) -> DiffOracle {
        DiffOracle { execs: (self.execs + 1) as usize, ..self }
    }

    /// The pairs of classes that were reported.
    pub open spec fn reported(self) -> Set<(TypeHash, TypeHash)> {
        Set::new(
            |pair: (TypeHash, TypeHash)| self.seen@.contains(pair_key(pair.0, pair.1) as u64),
        )
    }

    /// Whether some reported pair of classes has that opcode on both sides.
    pub open spec fn has_reported_opcode(self, opcode: u64) -> bool {
        exists|pair: (TypeHash, TypeHash)|
            {
                &&& #[trigger] self.reported().contains(pair)
                &&& pair.0.opcode == pair.1.opcode
                &&& pair.0.opcode == opcode
            }
    }

    /// Whether the findings fit together: the last report is of classes that steps can
    /// have and was reported, if anything was, and the opcodes are those of the reported
    /// pairs with the same opcode on both sides.
    pub open spec fn is_consistent(self) -> bool {
        &&& self.last.first.is_step_class()
        &&& self.last.second.is_step_class()
        &&& self.reported() != Set::<(TypeHash, TypeHash)>::empty() ==> self.reported().contains(
            (self.last.first, self.last.second),
        )
        &&& forall|opcode: u64| #[trigger]
            self.opcodes@.contains(opcode) <==> self.has_reported_opcode(opcode)
    }
}

/// Whether `after` is `before` with the difference between two steps reported: the pair of
/// their classes is added, the report is the last one, and where both sides executed the
/// same opcode, that opcode is added.
pub open spec fn is_reported(
    before: DiffOracle,
    first: Step,
    second: Step,
    after: DiffOracle,
) -> bool {
    &&& after.reported() == before.reported().insert((first.type_hash, second.type_hash))
    &&& after.last == Report {
        first: first.type_hash,
        second: second.type_hash,
        first_pc: first.pc,
        second_pc: second.pc,
    }
    &&& after.opcodes@ == if first.op == second.op {
        before.opcodes@.insert(first.op as u64)
    } else {
        before.opcodes@
    }
    &&& after.execs == before.execs
    &&& after.fresh == before.fresh
}

/// What the comparison of two traces does. The first trace has to be complete. At the first
/// difference, the pair of classes decides: a new pair is reported, a known one is not.
/// Where there is no difference, the second trace has to be complete.
pub open spec fn is_judged(
    before: DiffOracle,
    first: Seq<Step>,
    first_complete: bool,
    second: Seq<Step>,
    second_complete: bool,
    after: DiffOracle,
    result: Result<bool, Error>,
) -> bool {
    if !first_complete {
        result == Err::<bool, Error>(Error::IncompleteLog) && after == before
    } else {
        match first_difference(first, second) {
            Some(i) => {
                let step1 = first[i as int];
                let step2 = second[i as int];
                if before.reported().contains((step1.type_hash, step2.type_hash)) {
                    result == Ok::<bool, Error>(false) && after == before
                } else {
                    result == Ok::<bool, Error>(true) && is_reported(before, step1, step2, after)
                }
            },
            None => {
                &&& after == before
                &&& result == if second_complete {
                    Ok::<bool, Error>(false)
                } else {
                    Err::<bool, Error>(Error::IncompleteLog)
                }
            },
        }
    }
}

/// What the comparison of two logs does. The checksums of both start from the hasher of the
/// oracle.
pub open spec fn is_compared(
    before: DiffOracle,
    first: Seq<LogEntry>,
    second: Seq<LogEntry>,
    after: DiffOracle,
    result: Result<bool, Error>,
) -> bool {
    is_judged(
        before,
        readable_steps(before.fresh, first),
        readable_len(first) == first.len(),
        readable_steps(before.fresh, second),
        readable_len(second) == second.len(),
        after,
        result,
    )
}

impl DiffOracle {
    /// An oracle that has compared nothing yet.
    pub fn new() -> (oracle: DiffOracle)
        ensures
            oracle.reported() == Set::<(TypeHash, TypeHash)>::empty(),
            oracle.opcodes@ == Set::<u64>::empty(),
            oracle.last == (Report {
                first: TypeHash { mem_flag: false, t1: 0, t2: 0, opcode: 0 },
                second: TypeHash { mem_flag: false, t1: 0, t2: 0, opcode: 0 },
                first_pc: 0,
                second_pc: 0,
            }),
            oracle.execs == 0,
            oracle.is_consistent(),
    {
        broadcast use vstd::std_specs::hash::group_hash_axioms;

        let oracle = DiffOracle {
            fresh: new_hasher(),
            seen: HashSet::new(),
            opcodes: HashSet::new(),
            last: Report {
                first: TypeHash::default(),
                second: TypeHash::default(),
                first_pc: 0,
                second_pc: 0,
            },
            execs: 0,
        };
        assert(oracle.reported() =~= Set::<(TypeHash, TypeHash)>::empty());
        oracle
    }

    /// Reports the difference between two steps unless its pair of classes was reported
    /// before, and says whether it did.
    pub fn report(&mut self, first: &Step, second: &Step) -> (is_new: bool)
        ensures
            is_new == !old(self).reported().contains((first.type_hash, second.type_hash)),
            !is_new ==> *final(self) == *old(self),
            is_new ==> is_reported(*old(self), *first, *second, *final(self)),
    {
        broadcast use vstd::std_specs::hash::group_hash_axioms;

        let key1: u64 = class_key_of(&first.type_hash);
        let key2: u64 = class_key_of(&second.type_hash);
        let key: u64 = key1 * 0x200_0000 + key2;
        if self.seen.contains(&key) {
            return false;
        }
        self.last = Report {
            first: first.type_hash,
            second: second.type_hash,
            first_pc: first.pc,
            second_pc: second.pc,
        };
        self.seen.insert(key);
        if first.op == second.op {
            self.opcodes.insert(first.op as u64);
        }
        proof {
            let pair = (first.type_hash, second.type_hash);
            assert forall|p: (TypeHash, TypeHash)|
                self.reported().contains(p) == old(self).reported().insert(pair).contains(p) by {
                lemma_pair_key(p, pair);
                lemma_pair_key(pair, p);
            }
            assert(self.reported() =~= old(self).reported().insert(pair));
        }
        true
    }

    /// Compares two traces and says whether they differ in a way that was not reported
    /// before.
    pub fn judge(&mut self, first: &Trace, second: &Trace) -> (result: Result<bool, Error>)
        ensures
            is_judged(
                *old(self),
                first.steps@,
                first.complete,
                second.steps@,
                second.complete,
                *final(self),
                result,
            ),
    {
        if !first.complete {
            return Err(Error::IncompleteLog);
        }
        let mut i: usize = 0;
        while i < first.steps.len() && i < second.steps.len()
            invariant
                *self == *old(self),
                first.complete,
                first_difference(first.steps@, second.steps@) == first_difference_from(
                    first.steps@,
                    second.steps@,
                    i as nat,
                ),
            decreases first.steps@.len() - i,
        {
            let step1 = first.steps[i];
            let step2 = second.steps[i];
            if step1.is_error != step2.is_error || (!step1.is_error && step1.checksum
                != step2.checksum) {
                return Ok(self.report(&step1, &step2));
            }
            i = i + 1;
        }
        if second.complete {
            Ok(false)
        } else {
            Err(Error::IncompleteLog)
        }
    }

    /// Compares the logs of two runs and says whether they differ in a way that was not
    /// reported before.
    pub fn observers_cmp(&mut self, first: &Vec<EVMLog>, second: &Vec<EVMLog>) -> (result: Result<
        bool,
        Error,
    >)
        ensures
            is_compared(*old(self), entries(first@), entries(second@), *final(self), result),
    {
        let first_trace = trace_log(copy_hasher(&self.fresh), first);
        let second_trace = trace_log(copy_hasher(&self.fresh), second);
        self.judge(&first_trace, &second_trace)
    }

    /// Counts one more run of both sides and compares their logs.
    pub fn compare_runs(&mut self, first: &Vec<EVMLog>, second: &Vec<EVMLog>) -> (result: Result<
        DiffResult,
        Error,
    >)
        requires
            old(self).execs < usize::MAX,
        ensures
            exists|is_new: Result<bool, Error>|
                {
                    &&& #[trigger] is_compared(
                        old(self).with_one_more_run(),
                        entries(first@),
                        entries(second@),
                        *final(self),
                        is_new,
                    )
                    &&& result == match is_new {
                        Ok(true) => Ok::<DiffResult, Error>(DiffResult::Diff),
                        Ok(false) => Ok::<DiffResult, Error>(DiffResult::Equal),
                        Err(e) => Err::<DiffResult, Error>(e),
                    }
                },
    {
        self.execs = self.execs + 1;
        assert(*self == old(self).with_one_more_run());
        let is_new = self.observers_cmp(first, second);
        assert(is_compared(
            old(self).with_one_more_run(),
            entries(first@),
            entries(second@),
            *self,
            is_new,
        ));
        match is_new {
            Ok(is_new) => if is_new {
                Ok(DiffResult::Diff)
            } else {
                Ok(DiffResult::Equal)
            },
            Err(e) => Err(e),
        }
    }
}

/// The first difference is the first place that both traces have and at which they differ.
pub proof fn law_first_difference(first: Seq<Step>, second: Seq<Step>, i: nat)
    ensures
        first_difference(first, second) == Some(i) <==> {
            &&& i < first.len()
            &&& i < second.len()
            &&& steps_differ(first[i as int], second[i as int])
            &&& forall|j: int| 0 <= j < i ==> !steps_differ(first[j], #[trigger] second[j])
        },
{
    lemma_first_difference_from(first, second, 0, i);
}

proof fn lemma_first_difference_from(first: Seq<Step>, second: Seq<Step>, from: nat, i: nat)
    ensures
        first_difference_from(first, second, from) == Some(i) <==> {
            &&& from <= i < first.len()
            &&& i < second.len()
            &&& steps_differ(first[i as int], second[i as int])
            &&& forall|j: int| from <= j < i ==> !steps_differ(first[j], #[trigger] second[j])
        },
    decreases first.len() - from,
{
    if from < first.len() && from < second.len() {
        if steps_differ(first[from as int], second[from as int]) {
            if from < i {
                assert(second[from as int] == second[from as int]);
            }
        } else {
            lemma_first_difference_from(first, second, from + 1, i);
        }
    }
}

/// Traces have no first difference exactly where they differ at no place that both have.
pub proof fn law_no_difference(first: Seq<Step>, second: Seq<Step>)
    ensures
        first_difference(first, second) is None <==> forall|j: int|
            0 <= j < first.len() && j < second.len() ==> !steps_differ(
                first[j],
                #[trigger] second[j],
            ),
{
    lemma_no_difference_from(first, second, 0);
}

proof fn lemma_no_difference_from(first: Seq<Step>, second: Seq<Step>, from: nat)
    ensures
        first_difference_from(first, second, from) is None <==> forall|j: int|
            from <= j < first.len() && j < second.len() ==> !steps_differ(
                first[j],
                #[trigger] second[j],
            ),
    decreases first.len() - from,
{
    if from < first.len() && from < second.len() {
        assert(second[from as int] == second[from as int]);
        lemma_no_difference_from(first, second, from + 1);
    }
}

/// It makes no difference which of two traces is the first: they differ first at the same
/// place.
pub proof fn law_difference_is_symmetric(first: Seq<Step>, second: Seq<Step>)
    ensures
        first_difference(first, second) == first_difference(second, first),
{
    match first_difference(first, second) {
        Some(i) => {
            law_first_difference(first, second, i);
            assert forall|j: int| 0 <= j < i implies !steps_differ(second[j], #[trigger] first[j]) by {
                assert(!steps_differ(first[j], second[j]));
            }
            law_first_difference(second, first, i);
        },
        None => {
            law_no_difference(first, second);
            assert forall|j: int| 0 <= j < first.len() && j < second.len() implies !steps_differ(
                second[j],
                #[trigger] first[j],
            ) by {
                assert(!steps_differ(first[j], second[j]));
            }
            law_no_difference(second, first);
        },
    }
}

/// Two runs that log the same are no difference, and leave no mark on the oracle.
pub proof fn law_equal_logs_are_no_difference(
    before: DiffOracle,
    log: Seq<LogEntry>,
    after: DiffOracle,
    result: Result<bool, Error>,
)
    requires
        is_compared(before, log, log, after, result),
        readable_len(log) == log.len(),
    ensures
        result == Ok::<bool, Error>(false),
        after == before,
{
    let steps = readable_steps(before.fresh, log);
    law_no_difference(steps, steps);
}

/// A run that only goes on where the other stopped is no difference.
pub proof fn law_longer_trace_is_no_difference(longer: Seq<Step>, n: int)
    requires
        0 <= n <= longer.len(),
    ensures
        first_difference(longer, longer.take(n)) is None,
        first_difference(longer.take(n), longer) is None,
{
    law_no_difference(longer, longer.take(n));
    law_no_difference(longer.take(n), longer);
}

/// A difference is reported once: the same two logs, compared again right after a report,
/// are no difference, and change nothing.
pub proof fn law_reported_once(
    before: DiffOracle,
    first: Seq<LogEntry>,
    second: Seq<LogEntry>,
    between: DiffOracle,
    after: DiffOracle,
    result: Result<bool, Error>,
)
    requires
        is_compared(before, first, second, between, Ok(true)),
        is_compared(between, first, second, after, result),
    ensures
        result == Ok::<bool, Error>(false),
        after == between,
{
}

/// A pair of classes that was reported is never reported again, whatever is compared.
pub proof fn law_known_pair_is_no_difference(
    before: DiffOracle,
    first: Seq<Step>,
    second: Seq<Step>,
    second_complete: bool,
    after: DiffOracle,
    result: Result<bool, Error>,
    i: nat,
)
    requires
        is_judged(before, first, true, second, second_complete, after, result),
        first_difference(first, second) == Some(i),
        before.reported().contains((first[i as int].type_hash, second[i as int].type_hash)),
    ensures
        result == Ok::<bool, Error>(false),
        after == before,
{
}

/// No comparison forgets a reported pair or an opcode, and exactly the comparisons that
/// find a new difference add a pair.
pub proof fn law_reports_are_kept(
    before: DiffOracle,
    first: Seq<Step>,
    first_complete: bool,
    second: Seq<Step>,
    second_complete: bool,
    after: DiffOracle,
    result: Result<bool, Error>,
)
    requires
        is_judged(before, first, first_complete, second, second_complete, after, result),
    ensures
        before.reported().subset_of(after.reported()),
        before.opcodes@.subset_of(after.opcodes@),
        result == Ok::<bool, Error>(true) <==> after.reported() != before.reported(),
{
    if let Some(i) = first_difference(first, second) {
        let pair = (first[i as int].type_hash, second[i as int].type_hash);
        assert(before.reported().insert(pair).contains(pair));
    }
}

/// Findings that fit together still do so after a comparison.
pub proof fn law_oracle_stays_consistent(
    before: DiffOracle,
    first: Seq<LogEntry>,
    second: Seq<LogEntry>,
    after: DiffOracle,
    result: Result<bool, Error>,
)
    requires
        before.is_consistent(),
        is_compared(before, first, second, after, result),
    ensures
        after.is_consistent(),
{
    let steps1 = readable_steps(before.fresh, first);
    let steps2 = readable_steps(before.fresh, second);
    if let Some(i) = first_difference(steps1, steps2) {
        law_first_difference(steps1, steps2, i);
        law_failure_stays(
            before.fresh,
            first.take(readable_len(first) as int),
            i as int,
            i as int,
        );
        law_failure_stays(
            before.fresh,
            second.take(readable_len(second) as int),
            i as int,
            i as int,
        );
        let step1 = steps1[i as int];
        let step2 = steps2[i as int];
        let new_pair = (step1.type_hash, step2.type_hash);
        if result == Ok::<bool, Error>(true) {
            assert(after.reported().contains(new_pair));
            assert forall|opcode: u64| #[trigger]
                after.opcodes@.contains(opcode) <==> after.has_reported_opcode(opcode) by {
                if before.opcodes@.contains(opcode) {
                    let pair = choose|pair: (TypeHash, TypeHash)|
                        {
                            &&& #[trigger] before.reported().contains(pair)
                            &&& pair.0.opcode == pair.1.opcode
                            &&& pair.0.opcode == opcode
                        };
                    assert(after.reported().contains(pair));
                }
                if after.has_reported_opcode(opcode) {
                    let pair = choose|pair: (TypeHash, TypeHash)|
                        {
                            &&& #[trigger] after.reported().contains(pair)
                            &&& pair.0.opcode == pair.1.opcode
                            &&& pair.0.opcode == opcode
                        };
                    if pair != new_pair {
                        assert(before.reported().contains(pair));
                        assert(before.has_reported_opcode(opcode));
                        assert(before.opcodes@.contains(opcode));
                    }
                }
            }
        }
    }
}

/// Two steps differ exactly if one side failed alone, or if not both failed and their
/// checksums differ.
pub proof fn law_steps_differ(first: Step, second: Step)
    ensures
        steps_differ(first, second) <==> {
            ||| first.is_error && !second.is_error
            ||| !first.is_error && second.is_error
            ||| (!first.is_error || !second.is_error) && first.checksum != second.checksum
        },
{
}

/// A number that is not negative.
spec fn nat_of(i: int) -> nat {
    i as nat
}

/// An oracle starts with no findings.
pub proof fn law_new_oracle(oracle: DiffOracle)
    requires
        call_ensures(DiffOracle::new, (), oracle),
    ensures
        forall|pair: (TypeHash, TypeHash)| !(#[trigger] oracle.reported().contains(pair)),
        forall|opcode: u64| !(#[trigger] oracle.opcodes@.contains(opcode)),
        oracle.execs == 0,
        oracle.last.first_pc == 0 && oracle.last.second_pc == 0,
        oracle.last.first == oracle.last.second,
        !oracle.last.first.mem_flag && oracle.last.first.t1 == 0,
        oracle.last.first.t2 == 0 && oracle.last.first.opcode == 0,
{
}

/// A difference is reported exactly if its pair of classes was not reported before. The report
/// takes the class and the program counter of each side, and the opcode where both sides have
/// the same.
pub proof fn law_report(oracle: &mut DiffOracle, first: Step, second: Step, is_new: bool)
    requires
        call_ensures(DiffOracle::report, (oracle, &first, &second), is_new),
    ensures
        is_new <==> !old(oracle).reported().contains((first.type_hash, second.type_hash)),
        forall|pair: (TypeHash, TypeHash)| #[trigger]
            final(oracle).reported().contains(pair) <==> {
                ||| old(oracle).reported().contains(pair)
                ||| pair.0 == first.type_hash && pair.1 == second.type_hash
            },
        is_new ==> {
            &&& final(oracle).last.first == first.type_hash
            &&& final(oracle).last.second == second.type_hash
            &&& final(oracle).last.first_pc == first.pc
            &&& final(oracle).last.second_pc == second.pc
        },
        !is_new ==> *final(oracle) == *old(oracle),
        forall|o: u64| #[trigger]
            final(oracle).opcodes@.contains(o) <==> {
                ||| old(oracle).opcodes@.contains(o)
                ||| is_new && o == first.op && o == second.op
            },
        final(oracle).execs == old(oracle).execs,
        final(oracle).fresh == old(oracle).fresh,
{
}

/// Nothing is compared with a trace that is not complete.
pub proof fn law_judge_incomplete(
    oracle: &mut DiffOracle,
    first: Trace,
    second: Trace,
    result: Result<bool, Error>,
)
    requires
        call_ensures(DiffOracle::judge, (oracle, &first, &second), result),
        !first.complete,
    ensures
        result == Err::<bool, Error>(Error::IncompleteLog),
        *final(oracle) == *old(oracle),
{
}

/// A first log that lacks a field is no basis for a comparison. The run is counted, and
/// nothing else changes.
pub proof fn law_compare_incomplete(
    oracle: &mut DiffOracle,
    first: Vec<EVMLog>,
    second: Vec<EVMLog>,
    first_trace: Trace,
    result: Result<DiffResult, Error>,
)
    requires
        call_ensures(trace_log, (old(oracle).fresh, &first), first_trace),
        call_ensures(DiffOracle::compare_runs, (oracle, &first, &second), result),
        old(oracle).execs < usize::MAX,
        !first_trace.complete,
    ensures
        result == Err::<DiffResult, Error>(Error::IncompleteLog),
        final(oracle).execs == old(oracle).execs + 1,
        final(oracle).seen == old(oracle).seen,
        final(oracle).opcodes == old(oracle).opcodes,
        final(oracle).last == old(oracle).last,
        final(oracle).fresh == old(oracle).fresh,
{
}

/// The first difference between two traces decides: it is new exactly if its pair of classes
/// was not reported before, and then it is reported.
pub proof fn law_judge_difference(
    oracle: &mut DiffOracle,
    first: Trace,
    second: Trace,
    result: Result<bool, Error>,
    i: int,
)
    requires
        call_ensures(DiffOracle::judge, (oracle, &first, &second), result),
        first.complete,
        0 <= i < first.steps@.len(),
        i < second.steps@.len(),
        first.steps@[i].is_error != second.steps@[i].is_error || (!first.steps@[i].is_error
            && first.steps@[i].checksum != second.steps@[i].checksum),
        forall|j: int|
            0 <= j < i ==> #[trigger] first.steps@[j].is_error == second.steps@[j].is_error && (first.steps@[j].is_error
                || first.steps@[j].checksum == second.steps@[j].checksum),
    ensures
        ({
            let pair = (first.steps@[i].type_hash, second.steps@[i].type_hash);
            let known = old(oracle).reported().contains(pair);
            &&& known ==> result == Ok::<bool, Error>(false)
            &&& !known ==> result == Ok::<bool, Error>(true)
            &&& final(oracle).reported() == old(oracle).reported().insert(pair)
            &&& known ==> final(oracle).last == old(oracle).last
            &&& !known ==> {
                &&& final(oracle).last.first == pair.0
                &&& final(oracle).last.second == pair.1
                &&& final(oracle).last.first_pc == first.steps@[i].pc
                &&& final(oracle).last.second_pc == second.steps@[i].pc
            }
            &&& forall|o: u64| #[trigger]
                final(oracle).opcodes@.contains(o) <==> {
                    ||| old(oracle).opcodes@.contains(o)
                    ||| !known && o == first.steps@[i].op && o == second.steps@[i].op
                }
        }),
        final(oracle).execs == old(oracle).execs,
        final(oracle).fresh == old(oracle).fresh,
{
    let a = first.steps@;
    let b = second.steps@;
    let place: nat = nat_of(i);
    assert forall|j: int| 0 <= j < i implies !steps_differ(a[j], #[trigger] b[j]) by {
        assert(a[j].is_error == b[j].is_error);
    }
    law_first_difference(a, b, place);
    let pair = (a[i].type_hash, b[i].type_hash);
    if old(oracle).reported().contains(pair) {
        assert(old(oracle).reported().insert(pair) =~= old(oracle).reported());
    }
}

/// Traces that differ at no common place are no difference, and change nothing. That is said
/// only if the second trace is complete.
pub proof fn law_judge_no_difference(
    oracle: &mut DiffOracle,
    first: Trace,
    second: Trace,
    result: Result<bool, Error>,
)
    requires
        call_ensures(DiffOracle::judge, (oracle, &first, &second), result),
        first.complete,
        forall|j: int|
            0 <= j < first.steps@.len() && j < second.steps@.len() ==> #[trigger] first.steps@[j].is_error
                == second.steps@[j].is_error && (first.steps@[j].is_error || first.steps@[j].checksum
                == second.steps@[j].checksum),
    ensures
        second.complete ==> result == Ok::<bool, Error>(false),
        !second.complete ==> result == Err::<bool, Error>(Error::IncompleteLog),
        final(oracle).reported() == old(oracle).reported(),
        final(oracle).last == old(oracle).last,
        final(oracle).opcodes == old(oracle).opcodes,
        final(oracle).execs == old(oracle).execs,
        final(oracle).fresh == old(oracle).fresh,
{
    let a = first.steps@;
    let b = second.steps@;
    assert forall|j: int| 0 <= j < a.len() && j < b.len() implies !steps_differ(
        a[j],
        #[trigger] b[j],
    ) by {
        assert(a[j].is_error == b[j].is_error);
    }
    law_no_difference(a, b);
}

/// The first difference between the traces of two logs decides, as it does between traces.
/// Both traces start from the hasher of the oracle.
pub proof fn law_logs_difference(
    oracle: &mut DiffOracle,
    first: Vec<EVMLog>,
    second: Vec<EVMLog>,
    first_trace: Trace,
    second_trace: Trace,
    result: Result<bool, Error>,
    i: int,
)
    requires
        call_ensures(trace_log, (old(oracle).fresh, &first), first_trace),
        call_ensures(trace_log, (old(oracle).fresh, &second), second_trace),
        call_ensures(DiffOracle::observers_cmp, (oracle, &first, &second), result),
        first_trace.complete,
        0 <= i < first_trace.steps@.len(),
        i < second_trace.steps@.len(),
        first_trace.steps@[i].is_error != second_trace.steps@[i].is_error || (!first_trace.steps@[i].is_error
            && first_trace.steps@[i].checksum != second_trace.steps@[i].checksum),
        forall|j: int|
            0 <= j < i ==> #[trigger] first_trace.steps@[j].is_error == second_trace.steps@[j].is_error && (first_trace.steps@[j].is_error
                || first_trace.steps@[j].checksum == second_trace.steps@[j].checksum),
    ensures
        ({
            let pair = (first_trace.steps@[i].type_hash, second_trace.steps@[i].type_hash);
            let known = old(oracle).reported().contains(pair);
            &&& known ==> result == Ok::<bool, Error>(false)
            &&& !known ==> result == Ok::<bool, Error>(true)
            &&& final(oracle).reported() == old(oracle).reported().insert(pair)
            &&& known ==> final(oracle).last == old(oracle).last
            &&& !known ==> {
                &&& final(oracle).last.first == pair.0
                &&& final(oracle).last.second == pair.1
                &&& final(oracle).last.first_pc == first_trace.steps@[i].pc
                &&& final(oracle).last.second_pc == second_trace.steps@[i].pc
            }
            &&& forall|o: u64| #[trigger]
                final(oracle).opcodes@.contains(o) <==> {
                    ||| old(oracle).opcodes@.contains(o)
                    ||| !known && o == first_trace.steps@[i].op && o == second_trace.steps@[i].op
                }
        }),
        final(oracle).execs == old(oracle).execs,
        final(oracle).fresh == old(oracle).fresh,
{
    let a = first_trace.steps@;
    let b = second_trace.steps@;
    let place: nat = nat_of(i);
    assert forall|j: int| 0 <= j < i implies !steps_differ(a[j], #[trigger] b[j]) by {
        assert(a[j].is_error == b[j].is_error);
    }
    law_first_difference(a, b, place);
    let pair = (a[i].type_hash, b[i].type_hash);
    if old(oracle).reported().contains(pair) {
        assert(old(oracle).reported().insert(pair) =~= old(oracle).reported());
    }
}

/// Logs whose traces differ at no common place are no difference.
pub proof fn law_logs_no_difference(
    oracle: &mut DiffOracle,
    first: Vec<EVMLog>,
    second: Vec<EVMLog>,
    first_trace: Trace,
    second_trace: Trace,
    result: Result<bool, Error>,
)
    requires
        call_ensures(trace_log, (old(oracle).fresh, &first), first_trace),
        call_ensures(trace_log, (old(oracle).fresh, &second), second_trace),
        call_ensures(DiffOracle::observers_cmp, (oracle, &first, &second), result),
        first_trace.complete,
        forall|j: int|
            0 <= j < first_trace.steps@.len() && j < second_trace.steps@.len() ==> #[trigger] first_trace.steps@[j].is_error
                == second_trace.steps@[j].is_error && (first_trace.steps@[j].is_error || first_trace.steps@[j].checksum
                == second_trace.steps@[j].checksum),
    ensures
        second_trace.complete ==> result == Ok::<bool, Error>(false),
        !second_trace.complete ==> result == Err::<bool, Error>(Error::IncompleteLog),
        final(oracle).reported() == old(oracle).reported(),
        final(oracle).last == old(oracle).last,
        final(oracle).opcodes == old(oracle).opcodes,
        final(oracle).execs == old(oracle).execs,
        final(oracle).fresh == old(oracle).fresh,
{
    let a = first_trace.steps@;
    let b = second_trace.steps@;
    assert forall|j: int| 0 <= j < a.len() && j < b.len() implies !steps_differ(
        a[j],
        #[trigger] b[j],
    ) by {
        assert(a[j].is_error == b[j].is_error);
    }
    law_no_difference(a, b);
}

/// The first difference between the traces of two runs decides whether they differ in a new
/// way. The run is counted.
pub proof fn law_runs_difference(
    oracle: &mut DiffOracle,
    first: Vec<EVMLog>,
    second: Vec<EVMLog>,
    first_trace: Trace,
    second_trace: Trace,
    result: Result<DiffResult, Error>,
    i: int,
)
    requires
        call_ensures(trace_log, (old(oracle).fresh, &first), first_trace),
        call_ensures(trace_log, (old(oracle).fresh, &second), second_trace),
        call_ensures(DiffOracle::compare_runs, (oracle, &first, &second), result),
        first_trace.complete,
        old(oracle).execs < usize::MAX,
        0 <= i < first_trace.steps@.len(),
        i < second_trace.steps@.len(),
        first_trace.steps@[i].is_error != second_trace.steps@[i].is_error || (!first_trace.steps@[i].is_error
            && first_trace.steps@[i].checksum != second_trace.steps@[i].checksum),
        forall|j: int|
            0 <= j < i ==> #[trigger] first_trace.steps@[j].is_error == second_trace.steps@[j].is_error && (first_trace.steps@[j].is_error
                || first_trace.steps@[j].checksum == second_trace.steps@[j].checksum),
    ensures
        ({
            let pair = (first_trace.steps@[i].type_hash, second_trace.steps@[i].type_hash);
            let known = old(oracle).reported().contains(pair);
            &&& known ==> result == Ok::<DiffResult, Error>(DiffResult::Equal)
            &&& !known ==> result == Ok::<DiffResult, Error>(DiffResult::Diff)
            &&& final(oracle).reported() == old(oracle).reported().insert(pair)
            &&& known ==> final(oracle).last == old(oracle).last
            &&& !known ==> {
                &&& final(oracle).last.first == pair.0
                &&& final(oracle).last.second == pair.1
                &&& final(oracle).last.first_pc == first_trace.steps@[i].pc
                &&& final(oracle).last.second_pc == second_trace.steps@[i].pc
            }
            &&& forall|o: u64| #[trigger]
                final(oracle).opcodes@.contains(o) <==> {
                    ||| old(oracle).opcodes@.contains(o)
                    ||| !known && o == first_trace.steps@[i].op && o == second_trace.steps@[i].op
                }
        }),
        final(oracle).execs == old(oracle).execs + 1,
        final(oracle).fresh == old(oracle).fresh,
{
    let a = first_trace.steps@;
    let b = second_trace.steps@;
    let place: nat = nat_of(i);
    assert forall|j: int| 0 <= j < i implies !steps_differ(a[j], #[trigger] b[j]) by {
        assert(a[j].is_error == b[j].is_error);
    }
    law_first_difference(a, b, place);
    let pair = (a[i].type_hash, b[i].type_hash);
    assert(old(oracle).with_one_more_run().reported() =~= old(oracle).reported());
    if old(oracle).reported().contains(pair) {
        assert(old(oracle).reported().insert(pair) =~= old(oracle).reported());
    }
}

/// Runs whose traces differ at no common place are equal. The run is counted.
pub proof fn law_runs_no_difference(
    oracle: &mut DiffOracle,
    first: Vec<EVMLog>,
    second: Vec<EVMLog>,
    first_trace: Trace,
    second_trace: Trace,
    result: Result<DiffResult, Error>,
)
    requires
        call_ensures(trace_log, (old(oracle).fresh, &first), first_trace),
        call_ensures(trace_log, (old(oracle).fresh, &second), second_trace),
        call_ensures(DiffOracle::compare_runs, (oracle, &first, &second), result),
        first_trace.complete,
        old(oracle).execs < usize::MAX,
        forall|j: int|
            0 <= j < first_trace.steps@.len() && j < second_trace.steps@.len() ==> #[trigger] first_trace.steps@[j].is_error
                == second_trace.steps@[j].is_error && (first_trace.steps@[j].is_error || first_trace.steps@[j].checksum
                == second_trace.steps@[j].checksum),
    ensures
        second_trace.complete ==> result == Ok::<DiffResult, Error>(DiffResult::Equal),
        !second_trace.complete ==> result == Err::<DiffResult, Error>(Error::IncompleteLog),
        final(oracle).reported() == old(oracle).reported(),
        final(oracle).last == old(oracle).last,
        final(oracle).opcodes == old(oracle).opcodes,
        final(oracle).execs == old(oracle).execs + 1,
        final(oracle).fresh == old(oracle).fresh,
{
    let a = first_trace.steps@;
    let b = second_trace.steps@;
    assert forall|j: int| 0 <= j < a.len() && j < b.len() implies !steps_differ(
        a[j],
        #[trigger] b[j],
    ) by {
        assert(a[j].is_error == b[j].is_error);
    }
    law_no_difference(a, b);
    assert(old(oracle).with_one_more_run().reported() =~= old(oracle).reported());
}

} // verus!
