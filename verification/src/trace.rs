//! Traces: the steps of a log, each with the checksum of everything up to it.

use vstd::prelude::*;
use ahash::AHasher;
use crate::checksum::{digest, hasher_after_writes, hasher_digest, law_writes_in_order};
use crate::evm_log::{entries, EVMLog, LogEntry};
use crate::step::{
    classify, has_failed, has_memory_if_needed, is_step, law_step_class, shows_stack, step_class,
    step_writes, write_step,
};
use crate::type_hash::TypeHash;

verus! {

/// One step of a trace.
#[derive(Clone, Copy, PartialEq, Eq, Structural, Debug)]
pub struct Step {
    /// The checksum of the trace up to this step.
    pub checksum: u64,
    /// The class of the step.
    pub type_hash: TypeHash,
    /// Whether this step or one before it failed.
    pub is_error: bool,
    /// The opcode of the step.
    pub op: u8,
    /// The program counter of the step.
    pub pc: u64,
}

/// The steps of a log.
#[derive(Debug)]
pub struct Trace {
    /// The steps up to the first that lacks a field.
    pub steps: Vec<Step>,
    /// Whether no step of the log lacks a field.
    pub complete: bool,
}

/// Whether the entries `curr` and `next` have all that a trace needs of them: where `curr`
/// counts as a step, its program counter, and its memory where the stack is looked at.
pub open spec fn is_readable(curr: LogEntry, next: LogEntry) -> bool {
    is_step(curr) ==> curr.pc is Some && has_memory_if_needed(curr, next)
}

/// How many entries of a log can be read before a field is missing.
pub open spec fn readable_len(log: Seq<LogEntry>) -> nat
    decreases log.len(),
{
    if log.len() < 2 {
        log.len()
    } else {
        let before = readable_len(log.drop_last());
        if before == log.len() - 1 && is_readable(log[log.len() - 2], log.last()) {
            log.len()
        } else {
            before
        }
    }
}

/// Whether some step of a log failed.
pub open spec fn some_step_failed(log: Seq<LogEntry>) -> bool {
    exists|i: int|
        0 <= i < log.len() - 1 && is_step(#[trigger] log[i]) && has_failed(log[i], log[i + 1])
}

/// The hasher after all steps of a log.
pub open spec fn hasher_after_log(hasher: AHasher, log: Seq<LogEntry>) -> AHasher
    decreases log.len(),
{
    if log.len() < 2 {
        hasher
    } else {
        let before = hasher_after_log(hasher, log.drop_last());
        let curr = log[log.len() - 2];
        if is_step(curr) {
            hasher_after_writes(before, step_writes(curr, log.last()))
        } else {
            before
        }
    }
}

/// The step that ends a log, whose last entry but one counts as a step.
pub open spec fn last_step(hasher: AHasher, log: Seq<LogEntry>) -> Step {
    let curr = log[log.len() - 2];
    Step {
        checksum: hasher_digest(hasher_after_log(hasher, log)),
        type_hash: step_class(curr, log.last()),
        is_error: some_step_failed(log),
        op: curr.op->0,
        pc: curr.pc->0,
    }
}

/// The steps of a log, with checksums that start from `hasher`.
pub open spec fn steps_of(hasher: AHasher, log: Seq<LogEntry>) -> Seq<Step>
    decreases log.len(),
{
    if log.len() < 2 {
        seq![]
    } else if is_step(log[log.len() - 2]) {
        steps_of(hasher, log.drop_last()).push(last_step(hasher, log))
    } else {
        steps_of(hasher, log.drop_last())
    }
}

/// The steps of the part of a log that can be read.
pub open spec fn readable_steps(hasher: AHasher, log: Seq<LogEntry>) -> Seq<Step> {
    steps_of(hasher, log.take(readable_len(log) as int))
}

/// A log is readable no further than its length.
pub proof fn lemma_readable_len(log: Seq<LogEntry>)
    ensures
        readable_len(log) <= log.len(),
    decreases log.len(),
{
    if log.len() >= 2 {
        lemma_readable_len(log.drop_last());
    }
}

/// Where a field is missing, more entries make no more of a log readable.
proof fn lemma_unreadable_stays(log: Seq<LogEntry>, n: int)
    requires
        0 <= n <= log.len(),
        readable_len(log.take(n)) < n,
    ensures
        readable_len(log) == readable_len(log.take(n)),
    decreases log.len() - n,
{
    if n < log.len() {
        assert(log.take(n + 1).drop_last() == log.take(n));
        lemma_unreadable_stays(log, n + 1);
    } else {
        assert(log.take(n) == log);
    }
}

/// One more pair of entries adds what it says to the failures of a log.
pub proof fn lemma_one_more_entry(log: Seq<LogEntry>)
    requires
        log.len() >= 2,
    ensures
        some_step_failed(log) == (some_step_failed(log.drop_last()) || (is_step(
            log[log.len() - 2],
        ) && has_failed(log[log.len() - 2], log.last()))),
{
    let shorter = log.drop_last();
    if some_step_failed(shorter) {
        let i = choose|i: int|
            0 <= i < shorter.len() - 1 && is_step(#[trigger] shorter[i]) && has_failed(
                shorter[i],
                shorter[i + 1],
            );
        assert(is_step(log[i]));
    }
    if some_step_failed(log) {
        let i = choose|i: int|
            0 <= i < log.len() - 1 && is_step(#[trigger] log[i]) && has_failed(log[i], log[i + 1]);
        if i < log.len() - 2 {
            assert(is_step(shorter[i]));
        }
    }
}

/// The trace of a log, with checksums that start from `fresh`.
pub fn trace_log(fresh: AHasher, log: &Vec<EVMLog>) -> (trace: Trace)
    ensures
        trace.steps@ == readable_steps(fresh, entries(log@)),
        trace.complete == (readable_len(entries(log@)) == log@.len()),
{
    let ghost all = entries(log@);
    let mut hasher = fresh;
    let mut steps: Vec<Step> = Vec::new();
    let mut is_error = false;
    if log.len() == 0 {
        return Trace { steps, complete: true };
    }
    let mut n: usize = 1;
    assert(steps@ == steps_of(fresh, all.take(1)));
    while n < log.len()
        invariant
            1 <= n <= log@.len(),
            all == entries(log@),
            readable_len(all.take(n as int)) == n,
            hasher == hasher_after_log(fresh, all.take(n as int)),
            steps@ == steps_of(fresh, all.take(n as int)),
            is_error == some_step_failed(all.take(n as int)),
        decreases log@.len() - n,
    {
        let curr = &log[n - 1];
        let next = &log[n];
        let ghost longer = all.take(n + 1);
        proof {
            assert(longer.drop_last() == all.take(n as int));
            assert(longer[longer.len() - 2] == curr@);
            assert(longer.last() == next@);
            lemma_one_more_entry(longer);
        }
        if curr.is_step() {
            let pc: u64 = match curr.pc {
                Some(pc) => pc,
                None => {
                    proof {
                        lemma_unreadable_stays(all, n + 1);
                    }
                    return Trace { steps, complete: false };
                },
            };
            if !curr.has_memory_if_needed(next) {
                proof {
                    lemma_unreadable_stays(all, n + 1);
                }
                return Trace { steps, complete: false };
            }
            let type_hash = classify(curr, next);
            if curr.has_failed(next) {
                is_error = true;
            }
            write_step(&mut hasher, curr, next);
            let checksum: u64 = digest(&hasher);
            steps.push(Step { checksum, type_hash, is_error, op: type_hash.opcode, pc });
        }
        n = n + 1;
    }
    proof {
        assert(all.take(n as int) == all);
    }
    Trace { steps, complete: true }
}

/// What follows in a log changes nothing of the steps before: the steps of a log start with
/// the steps of each of its beginnings.
pub proof fn law_steps_of_beginning(hasher: AHasher, log: Seq<LogEntry>, n: int)
    requires
        0 <= n <= log.len(),
    ensures
        steps_of(hasher, log.take(n)).len() <= steps_of(hasher, log).len(),
        steps_of(hasher, log.take(n)) == steps_of(hasher, log).take(
            steps_of(hasher, log.take(n)).len() as int,
        ),
    decreases log.len() - n,
{
    if n < log.len() {
        law_steps_of_beginning(hasher, log, n + 1);
        let short = steps_of(hasher, log.take(n));
        let long = steps_of(hasher, log.take(n + 1));
        assert(log.take(n + 1).drop_last() == log.take(n));
        if n == 0 {
            assert(short =~= steps_of(hasher, log).take(0));
        } else {
            assert(long.take(short.len() as int) == short);
            assert(steps_of(hasher, log).take(long.len() as int).take(short.len() as int)
                == steps_of(hasher, log).take(short.len() as int));
        }
    } else {
        assert(log.take(n) == log);
        assert(steps_of(hasher, log).take(steps_of(hasher, log).len() as int) == steps_of(
            hasher,
            log,
        ));
    }
}

/// Once a step of a trace failed, every later step counts as failed, and each step has the
/// opcode of its class, which is one that steps can have.
pub proof fn law_failure_stays(hasher: AHasher, log: Seq<LogEntry>, i: int, j: int)
    requires
        0 <= i <= j < steps_of(hasher, log).len(),
    ensures
        steps_of(hasher, log)[i].is_error ==> steps_of(hasher, log)[j].is_error,
        steps_of(hasher, log)[i].is_error ==> some_step_failed(log),
        steps_of(hasher, log)[i].op == steps_of(hasher, log)[i].type_hash.opcode,
        steps_of(hasher, log)[i].type_hash.is_step_class(),
    decreases log.len(),
{
    let shorter = log.drop_last();
    let before = steps_of(hasher, shorter);
    lemma_one_more_entry(log);
    law_step_class(log[log.len() - 2], log.last());
    if i < before.len() {
        let k = if j < before.len() {
            j
        } else {
            i
        };
        law_failure_stays(hasher, shorter, i, k);
        assert(steps_of(hasher, log)[i] == before[i]);
        if j < before.len() {
            assert(steps_of(hasher, log)[j] == before[j]);
        }
    }
}

/// A log is readable to its end exactly if no step lacks a field.
pub proof fn law_readable_len(log: Seq<LogEntry>)
    ensures
        readable_len(log) == log.len() <==> forall|i: int|
            0 <= i < log.len() - 1 ==> is_readable(#[trigger] log[i], log[i + 1]),
    decreases log.len(),
{
    lemma_readable_len(log);
    if log.len() >= 2 {
        let shorter = log.drop_last();
        law_readable_len(shorter);
        lemma_readable_len(shorter);
        if readable_len(log) == log.len() {
            assert forall|i: int| 0 <= i < log.len() - 1 implies is_readable(
                #[trigger] log[i],
                log[i + 1],
            ) by {
                if i < log.len() - 2 {
                    assert(is_readable(shorter[i], shorter[i + 1]));
                }
            }
        }
        if forall|i: int|
            0 <= i < log.len() - 1 ==> is_readable(#[trigger] log[i], log[i + 1]) {
            assert forall|i: int| 0 <= i < shorter.len() - 1 implies is_readable(
                #[trigger] shorter[i],
                shorter[i + 1],
            ) by {
                assert(is_readable(log[i], log[i + 1]));
            }
            assert(is_readable(log[log.len() - 2], log[log.len() - 1]));
        }
    }
}

/// A trace can read a pair of entries exactly if the first is no step, or has a program
/// counter and, where the stack is looked at, a memory.
pub proof fn law_is_readable(curr: LogEntry, next: LogEntry)
    ensures
        is_readable(curr, next) <==> {
            ||| !is_step(curr)
            ||| curr.pc is Some && (!shows_stack(curr, next) || curr.memory is Some)
        },
{
}

/// A log is readable up to the first pair of entries that cannot be read: all pairs before can
/// be read, and that one cannot.
pub proof fn law_readable_part(log: Seq<LogEntry>, i: int)
    ensures
        readable_len(log) <= log.len(),
        log.len() >= 1 ==> readable_len(log) >= 1,
        0 <= i < readable_len(log) - 1 ==> is_readable(log[i], log[i + 1]),
        readable_len(log) < log.len() ==> !is_readable(
            log[readable_len(log) - 1],
            log[readable_len(log) as int],
        ),
    decreases log.len(),
{
    if log.len() >= 2 {
        law_readable_part(log.drop_last(), i);
    }
}

/// Some step of a log failed exactly if a pair of neighbouring entries is a step that failed.
pub proof fn law_some_step_failed(log: Seq<LogEntry>)
    ensures
        some_step_failed(log) <==> exists|i: int|
            0 <= i < log.len() - 1 && #[trigger] is_step(log[i]) && has_failed(log[i], log[i + 1]),
{
    if exists|i: int|
        0 <= i < log.len() - 1 && #[trigger] is_step(log[i]) && has_failed(log[i], log[i + 1]) {
        let i = choose|i: int|
            0 <= i < log.len() - 1 && #[trigger] is_step(log[i]) && has_failed(log[i], log[i + 1]);
        assert(is_step(log[i]));
    }
}

/// The writes of each pair of neighbouring entries of a log: those of the step, or none where
/// the first entry is no step.
pub open spec fn writes_by_pair(log: Seq<LogEntry>) -> Seq<Seq<Seq<u8>>> {
    Seq::new(
        if log.len() == 0 {
            0
        } else {
            (log.len() - 1) as nat
        },
        |i: int|
            if is_step(log[i]) {
                step_writes(log[i], log[i + 1])
            } else {
                seq![]
            },
    )
}

/// The hasher after a log is the hasher after the writes of all its steps, whatever the length
/// of the log.
pub proof fn law_hasher_covers_log(hasher: AHasher, log: Seq<LogEntry>)
    ensures
        hasher_after_log(hasher, log) == hasher_after_writes(
            hasher,
            writes_by_pair(log).flatten(),
        ),
    decreases log.len(),
{
    let writes = writes_by_pair(log);
    if log.len() >= 2 {
        let shorter = log.drop_last();
        let before = writes_by_pair(shorter);
        law_hasher_covers_log(hasher, shorter);
        assert(writes =~= before.push(writes.last()));
        before.lemma_flatten_push(writes.last());
        law_writes_in_order(hasher, before.flatten(), writes.last(), seq![]);
        assert(hasher_after_writes(hasher_after_log(hasher, shorter), seq![]) == hasher_after_log(
            hasher,
            shorter,
        ));
    } else {
        assert(writes.len() == 0);
        assert(writes.flatten() == Seq::<Seq<u8>>::empty());
    }
}

/// One more entry adds the writes of the step before it, if there is one, and nothing else.
pub proof fn law_hasher_one_more_entry(hasher: AHasher, log: Seq<LogEntry>, next: LogEntry)
    requires
        log.len() >= 1,
    ensures
        is_step(log.last()) ==> hasher_after_log(hasher, log.push(next)) == hasher_after_writes(
            hasher_after_log(hasher, log),
            step_writes(log.last(), next),
        ),
        !is_step(log.last()) ==> hasher_after_log(hasher, log.push(next)) == hasher_after_log(
            hasher,
            log,
        ),
        hasher_after_log(hasher, seq![next]) == hasher,
{
    assert(log.push(next).drop_last() == log);
}

/// A log that is cut at one of its entries is hashed in two parts, the second from where the
/// first ended.
pub proof fn law_hasher_of_parts(hasher: AHasher, log: Seq<LogEntry>, n: int)
    requires
        0 <= n < log.len(),
    ensures
        hasher_after_log(hasher, log) == hasher_after_log(
            hasher_after_log(hasher, log.take(n + 1)),
            log.skip(n),
        ),
    decreases log.len(),
{
    if n == log.len() - 1 {
        assert(log.take(n + 1) == log);
    } else {
        law_hasher_of_parts(hasher, log.drop_last(), n);
        assert(log.drop_last().take(n + 1) == log.take(n + 1));
        assert(log.drop_last().skip(n) == log.skip(n).drop_last());
    }
}

/// The steps among entries.
pub open spec fn steps_among(log: Seq<LogEntry>) -> Seq<LogEntry> {
    log.filter(|entry: LogEntry| is_step(entry))
}

/// A log has one step for each entry but the last that counts as one.
pub proof fn law_number_of_steps(hasher: AHasher, log: Seq<LogEntry>)
    ensures
        log.len() == 0 ==> steps_of(hasher, log).len() == 0,
        log.len() > 0 ==> steps_of(hasher, log).len() == steps_among(log.drop_last()).len(),
    decreases log.len(),
{
    reveal(Seq::filter);
    if log.len() >= 2 {
        law_number_of_steps(hasher, log.drop_last());
    }
}

/// What a trace says of the step at entry `n` of a log, whatever follows: the checksum covers
/// the writes of all steps up to this one, the class is that of the step, the step counts as
/// failed if it or one before it failed, and the opcode and the program counter are those of
/// the entry. Its place in the trace is the number of steps before it.
pub proof fn law_step_by_place(hasher: AHasher, log: Seq<LogEntry>, n: int)
    requires
        0 <= n < log.len() - 1,
        is_step(log[n]),
    ensures
        steps_among(log.take(n)).len() < steps_of(hasher, log).len(),
        ({
            let step = steps_of(hasher, log)[steps_among(log.take(n)).len() as int];
            &&& step.checksum == hasher_digest(
                hasher_after_writes(hasher, writes_by_pair(log.take(n + 2)).flatten()),
            )
            &&& step.type_hash == step_class(log[n], log[n + 1])
            &&& step.is_error <==> exists|i: int|
                0 <= i <= n && #[trigger] is_step(log[i]) && has_failed(log[i], log[i + 1])
            &&& step.op == log[n].op->0
            &&& log[n].pc is Some ==> log[n].pc == Some(step.pc)
        }),
{
    let part = log.take(n + 2);
    let k = steps_among(log.take(n)).len() as int;
    law_steps_of_beginning(hasher, log, n + 2);
    law_number_of_steps(hasher, part.drop_last());
    assert(part.drop_last().drop_last() == log.take(n));
    assert(steps_of(hasher, part) == steps_of(hasher, part.drop_last()).push(
        last_step(hasher, part),
    ));
    assert(steps_of(hasher, log)[k] == steps_of(hasher, part)[k]);
    law_hasher_covers_log(hasher, part);
    law_some_step_failed(part);
    let step = steps_of(hasher, log)[k];
    if step.is_error {
        let i = choose|i: int|
            0 <= i < part.len() - 1 && #[trigger] is_step(part[i]) && has_failed(
                part[i],
                part[i + 1],
            );
        assert(is_step(log[i]));
    }
    if exists|i: int|
        0 <= i <= n && #[trigger] is_step(log[i]) && has_failed(log[i], log[i + 1]) {
        let i = choose|i: int|
            0 <= i <= n && #[trigger] is_step(log[i]) && has_failed(log[i], log[i + 1]);
        assert(is_step(part[i]));
    }
}

/// The trace of a log holds the steps of the part that can be read. It is complete exactly if
/// every pair of entries can be read, and then holds all steps.
pub proof fn law_trace_log(fresh: AHasher, log: Vec<EVMLog>, trace: Trace)
    requires
        call_ensures(trace_log, (fresh, &log), trace),
    ensures
        trace.complete <==> forall|i: int|
            0 <= i < log@.len() - 1 ==> is_readable(#[trigger] entries(log@)[i], entries(log@)[i + 1]),
        trace.complete ==> trace.steps@ == steps_of(fresh, entries(log@)),
        trace.steps@ == steps_of(fresh, entries(log@).take(readable_len(entries(log@)) as int)),
{
    let all = entries(log@);
    law_readable_len(all);
    assert(all.take(all.len() as int) == all);
}

/// A step of the part of a log that can be read is in the trace.
pub proof fn law_traced_step(fresh: AHasher, log: Vec<EVMLog>, trace: Trace, n: int)
    requires
        call_ensures(trace_log, (fresh, &log), trace),
        0 <= n < readable_len(entries(log@)) - 1,
        is_step(log@[n]@),
    ensures
        ({
            let all = entries(log@);
            let k = steps_among(all.take(n)).len() as int;
            &&& k < trace.steps@.len()
            &&& trace.steps@[k].checksum == hasher_digest(
                hasher_after_writes(fresh, writes_by_pair(all.take(n + 2)).flatten()),
            )
            &&& trace.steps@[k].type_hash == step_class(log@[n]@, log@[n + 1]@)
            &&& log@[n].op == Some(trace.steps@[k].op)
            &&& log@[n].pc == Some(trace.steps@[k].pc)
        }),
{
    let all = entries(log@);
    let part = all.take(readable_len(all) as int);
    law_readable_part(all, n);
    law_step_by_place(fresh, part, n);
    assert(part.take(n) == all.take(n));
    assert(part.take(n + 2) == all.take(n + 2));
}

/// One more entry adds the step before it, if there is one, behind the steps before, and
/// nothing else.
pub proof fn law_one_more_step(hasher: AHasher, log: Seq<LogEntry>, next: LogEntry)
    requires
        log.len() >= 1,
    ensures
        steps_of(hasher, seq![next]) == Seq::<Step>::empty(),
        !is_step(log.last()) ==> steps_of(hasher, log.push(next)) == steps_of(hasher, log),
        is_step(log.last()) ==> {
            let steps = steps_of(hasher, log.push(next));
            &&& steps.len() == steps_of(hasher, log).len() + 1
            &&& steps.drop_last() == steps_of(hasher, log)
            &&& steps.last().checksum == hasher_digest(hasher_after_log(hasher, log.push(next)))
            &&& steps.last().type_hash == step_class(log.last(), next)
            &&& steps.last().is_error <==> some_step_failed(log) || has_failed(log.last(), next)
            &&& steps.last().op == log.last().op->0
            &&& steps.last().pc == log.last().pc->0
        },
{
    assert(log.push(next).drop_last() == log);
    lemma_one_more_entry(log.push(next));
    if is_step(log.last()) {
        assert(steps_of(hasher, log.push(next)).drop_last() =~= steps_of(hasher, log));
    }
}

} // verus!
