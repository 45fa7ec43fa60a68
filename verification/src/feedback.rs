//! Feedback by type hashes: an input is interesting if its run has a step of a class that
//! no run before had.

use vstd::prelude::*;
use ahash::AHasher;
use bit_vec::BitVec;
use crate::error::Error;
use crate::evm_log::{entries, EVMLog, LogEntry};
use crate::history::{bit_at, bits_from_elem, copy_bits, history_bits, set_bit};
use crate::observer::StdOutObserver;
use crate::step::{
    classify, has_failed, has_memory_if_needed, is_step, law_step_class, shows_stack, step_class,
};
use crate::trace::{
    law_some_step_failed, lemma_one_more_entry, some_step_failed, steps_of, Step,
};
use crate::type_hash::{law_step_class_in_history, TypeHash, HISTORY_LEN, STEP_CLASSES_LEN};

verus! {

/// The classes seen so far.
#[derive(Debug)]
pub struct EVMFeedbackState {
    /// The name of the feedback that the state belongs to.
    pub name: String,
    /// One bit per class.
    pub history: BitVec<u32>,
}

/// The feedback: whether a log shows a new class.
#[derive(Debug, Clone)]
pub struct EVMTypeHashFeedback {
    /// Whether logs with a failed step are passed over.
    pub no_errors: bool,
    /// The name of the feedback.
    pub name: String,
    /// The name of the observer whose log is looked at.
    pub stdout_name: String,
}

impl EVMFeedbackState {
    /// Whether the history has a bit for every class that a step can have.
    pub open spec fn wf(&self) -> bool {
        history_bits(self.history).len() >= STEP_CLASSES_LEN
    }

    /// Whether a step of this class was seen.
    pub open spec fn has_seen(&self, class: TypeHash) -> bool {
        history_bits(self.history)[class.packed_index()]
    }

    /// Whether the history has a bit for every class that a step can have. One that
    /// [`init_state`] made has; one from elsewhere may not.
    ///
    /// [`init_state`]: EVMTypeHashFeedback::init_state
    pub fn is_well_formed(&self) -> (b: bool)
        ensures
            b == self.wf(),
    {
        bit_at(&self.history, STEP_CLASSES_LEN - 1).is_some()
    }

    /// The name of the feedback that the state belongs to.
    pub fn name(&self) -> (name: &str)
        ensures
            name@ == self.name@,
    {
        self.name.as_str()
    }
}

/// Whether every step of a log has the memory that it needs.
pub open spec fn has_all_memory(log: Seq<LogEntry>) -> bool {
    forall|i: int|
        0 <= i < log.len() - 1 && is_step(#[trigger] log[i]) ==> has_memory_if_needed(
            log[i],
            log[i + 1],
        )
}

/// The classes of the steps of a log, in order.
pub open spec fn classes_of(log: Seq<LogEntry>) -> Seq<TypeHash>
    decreases log.len(),
{
    if log.len() < 2 {
        seq![]
    } else if is_step(log[log.len() - 2]) {
        classes_of(log.drop_last()).push(step_class(log[log.len() - 2], log.last()))
    } else {
        classes_of(log.drop_last())
    }
}

/// Whether a class of `classes` was not seen before.
pub open spec fn has_new_class(state: EVMFeedbackState, classes: Seq<TypeHash>) -> bool {
    exists|i: int| 0 <= i < classes.len() && !state.has_seen(#[trigger] classes[i])
}

/// Whether `after` is `before` with all of `classes` seen, and nothing else changed.
pub open spec fn is_marked(
    before: EVMFeedbackState,
    classes: Seq<TypeHash>,
    after: EVMFeedbackState,
) -> bool {
    &&& after.name == before.name
    &&& history_bits(after.history).len() == history_bits(before.history).len()
    &&& forall|k: int|
        0 <= k < history_bits(before.history).len() ==> #[trigger] history_bits(after.history)[k] == (history_bits(
            before.history,
        )[k] || is_place_of(classes, k))
}

/// Whether `k` is the place of one of `classes` in a history.
pub open spec fn is_place_of(classes: Seq<TypeHash>, k: int) -> bool {
    exists|i: int| 0 <= i < classes.len() && (#[trigger] classes[i]).packed_index() == k
}

/// What the feedback does with a log. It passes over a log with a failed step if it is told
/// to. Else the log is interesting if it has a new class, and all its classes are seen from
/// then on.
pub open spec fn is_judged_by(
    feedback: EVMTypeHashFeedback,
    before: EVMFeedbackState,
    log: Seq<LogEntry>,
    after: EVMFeedbackState,
    result: Result<bool, Error>,
) -> bool {
    if feedback.no_errors && some_step_failed(log) {
        result == Ok::<bool, Error>(false) && after == before
    } else {
        &&& result == Ok::<bool, Error>(has_new_class(before, classes_of(log)))
        &&& is_marked(before, classes_of(log), after)
    }
}

/// The classes of a log are classes that steps can have, and none has the opcode 0
/// (`STOP`) or 253 (`REVERT`).
pub proof fn law_classes_of_log(log: Seq<LogEntry>)
    ensures
        forall|i: int|
            0 <= i < classes_of(log).len() ==> {
                &&& (#[trigger] classes_of(log)[i]).is_step_class()
                &&& classes_of(log)[i].opcode != 0
                &&& classes_of(log)[i].opcode != 253
            },
    decreases log.len(),
{
    if log.len() >= 2 {
        let rest = classes_of(log.drop_last());
        law_classes_of_log(log.drop_last());
        law_step_class(log[log.len() - 2], log.last());
        assert forall|i: int| 0 <= i < classes_of(log).len() implies {
            &&& (#[trigger] classes_of(log)[i]).is_step_class()
            &&& classes_of(log)[i].opcode != 0
            &&& classes_of(log)[i].opcode != 253
        } by {
            if i < rest.len() {
                assert(classes_of(log)[i] == rest[i]);
            }
        }
    }
}

/// Marking one more class keeps a state marked, and the class is new where the state has
/// not seen it.
proof fn lemma_one_more_class(
    first: EVMFeedbackState,
    classes: Seq<TypeHash>,
    before: EVMFeedbackState,
    class: TypeHash,
    after: EVMFeedbackState,
)
    requires
        first.wf(),
        is_marked(first, classes, before),
        class.is_step_class(),
        after.name == before.name,
        history_bits(after.history) == history_bits(before.history).update(
            class.packed_index(),
            true,
        ),
    ensures
        is_marked(first, classes.push(class), after),
        has_new_class(first, classes.push(class)) == (has_new_class(first, classes)
            || !before.has_seen(class)),
{
    let more = classes.push(class);
    let place = class.packed_index();
    law_step_class_in_history(class);
    assert(more[classes.len() as int] == class);
    assert forall|k: int| is_place_of(more, k) == (is_place_of(classes, k) || place == k) by {
        if is_place_of(classes, k) {
            let i = choose|i: int|
                0 <= i < classes.len() && (#[trigger] classes[i]).packed_index() == k;
            assert(more[i] == classes[i]);
        }
        if is_place_of(more, k) {
            let i = choose|i: int| 0 <= i < more.len() && (#[trigger] more[i]).packed_index() == k;
            if i < classes.len() {
                assert(more[i] == classes[i]);
            }
        }
    }
    assert(history_bits(before.history)[place] == (history_bits(first.history)[place]
        || is_place_of(classes, place)));
    if has_new_class(first, classes) {
        let i = choose|i: int| 0 <= i < classes.len() && !first.has_seen(#[trigger] classes[i]);
        assert(more[i] == classes[i]);
    }
    if has_new_class(first, more) {
        let i = choose|i: int| 0 <= i < more.len() && !first.has_seen(#[trigger] more[i]);
        if i < classes.len() {
            assert(more[i] == classes[i]);
        } else if before.has_seen(class) {
            let j = choose|j: int|
                0 <= j < classes.len() && (#[trigger] classes[j]).packed_index() == place;
            assert(!first.has_seen(classes[j]));
        }
    }
}

impl Clone for EVMFeedbackState {
    fn clone(&self) -> (copy: EVMFeedbackState)
        ensures
            copy.name@ == self.name@,
            history_bits(copy.history) == history_bits(self.history),
    {
        EVMFeedbackState { name: self.name.clone(), history: copy_bits(&self.history) }
    }
}

impl EVMFeedbackState {
    /// Marks the class as seen, and says whether it is new.
    pub fn mark(&mut self, class: &TypeHash) -> (is_new: bool)
        requires
            old(self).wf(),
            class.is_step_class(),
        ensures
            is_new == !old(self).has_seen(*class),
            final(self).name == old(self).name,
            history_bits(final(self).history) == history_bits(old(self).history).update(
                class.packed_index(),
                true,
            ),
    {
        proof {
            law_step_class_in_history(*class);
        }
        let index: usize = class.index();
        let is_new = match bit_at(&self.history, index) {
            Some(seen) => !seen,
            None => false,
        };
        if is_new {
            set_bit(&mut self.history, index, true);
        }
        assert(history_bits(self.history) == history_bits(old(self).history).update(
            class.packed_index(),
            true,
        ));
        is_new
    }
}

impl EVMTypeHashFeedback {
    /// A feedback of that name on the log that `stdout` observes.
    pub fn new(name: &str, no_errors: bool, stdout: &StdOutObserver) -> (feedback: Self)
        ensures
            feedback.name@ == name@,
            feedback.no_errors == no_errors,
            feedback.stdout_name@ == stdout.name@,
    {
        EVMTypeHashFeedback {
            no_errors,
            name: name.to_owned(),
            stdout_name: stdout.name().to_owned(),
        }
    }

    /// The name of the feedback.
    pub fn name(&self) -> (name: &str)
        ensures
            name@ == self.name@,
    {
        self.name.as_str()
    }

    /// A state in which no class was seen.
    pub fn init_state(&self) -> (state: Result<EVMFeedbackState, Error>)
        ensures
            state matches Ok(fresh) && {
                &&& fresh.wf()
                &&& fresh.name@ == self.name@
                &&& history_bits(fresh.history) == Seq::new(HISTORY_LEN as nat, |k: int| false)
            },
    {
        Ok(
            EVMFeedbackState {
                name: self.name().to_owned(),
                history: bits_from_elem(HISTORY_LEN, false),
            },
        )
    }

    /// Whether the feedback can judge a log: the history has a bit for every class that a
    /// step can have, and no step lacks its memory.
    pub fn can_judge(&self, feedback_state: &EVMFeedbackState, log: &Vec<EVMLog>) -> (b: bool)
        ensures
            b == (feedback_state.wf() && has_all_memory(entries(log@))),
    {
        let ghost all = entries(log@);
        let mut n: usize = 1;
        while n < log.len()
            invariant
                1 <= n,
                all == entries(log@),
                forall|i: int|
                    0 <= i < n - 1 && i < all.len() - 1 && is_step(#[trigger] all[i])
                        ==> has_memory_if_needed(all[i], all[i + 1]),
            decreases log@.len() - n,
        {
            let curr = &log[n - 1];
            if curr.is_step() && !curr.has_memory_if_needed(&log[n]) {
                assert(is_step(all[n - 1]));
                return false;
            }
            n = n + 1;
        }
        feedback_state.is_well_formed()
    }

    /// Whether the log of a run shows a class that was not seen before. Its classes are seen
    /// from then on.
    pub fn is_interesting(
        &self,
        feedback_state: &mut EVMFeedbackState,
        log: &Vec<EVMLog>,
    ) -> (result: Result<bool, Error>)
        requires
            old(feedback_state).wf(),
            has_all_memory(entries(log@)),
        ensures
            is_judged_by(
                *self,
                *old(feedback_state),
                entries(log@),
                *final(feedback_state),
                result,
            ),
    {
        let ghost all = entries(log@);
        let mut classes: Vec<TypeHash> = Vec::new();
        let mut is_error = false;
        let mut n: usize = 1;
        if log.len() > 0 {
            assert(classes@ == classes_of(all.take(1)));
        } else {
            assert(classes@ == classes_of(all));
        }
        while n < log.len()
            invariant
                1 <= n,
                n <= log@.len() || log@.len() == 0 && n == 1 && !is_error && classes@
                    == classes_of(all),
                *feedback_state == *old(feedback_state),
                all == entries(log@),
                has_all_memory(all),
                n <= log@.len() ==> classes@ == classes_of(all.take(n as int)),
                n <= log@.len() ==> is_error == some_step_failed(all.take(n as int)),
            decreases log@.len() - n,
        {
            let curr = &log[n - 1];
            let next = &log[n];
            let ghost shorter = all.take(n as int);
            let ghost longer = all.take(n + 1);
            proof {
                assert(longer.drop_last() == shorter);
                assert(longer[longer.len() - 2] == curr@);
                assert(longer.last() == next@);
                lemma_one_more_entry(longer);
                assert(all[n - 1] == curr@);
                assert(all[n as int] == next@);
            }
            if curr.is_step() {
                if curr.has_failed(next) {
                    is_error = true;
                }
                classes.push(classify(curr, next));
            }
            n = n + 1;
        }
        proof {
            if log@.len() > 0 {
                assert(all.take(n as int) == all);
            }
        }
        if is_error && self.no_errors {
            return Ok(false);
        }
        proof {
            law_classes_of_log(all);
        }
        let mut is_new = false;
        let mut i: usize = 0;
        while i < classes.len()
            invariant
                i <= classes@.len(),
                old(feedback_state).wf(),
                forall|j: int|
                    0 <= j < classes@.len() ==> (#[trigger] classes@[j]).is_step_class(),
                is_marked(*old(feedback_state), classes@.take(i as int), *feedback_state),
                is_new == has_new_class(*old(feedback_state), classes@.take(i as int)),
            decreases classes@.len() - i,
        {
            let ghost before = *feedback_state;
            if feedback_state.mark(&classes[i]) {
                is_new = true;
            }
            proof {
                lemma_one_more_class(
                    *old(feedback_state),
                    classes@.take(i as int),
                    before,
                    classes@[i as int],
                    *feedback_state,
                );
                assert(classes@.take(i + 1) == classes@.take(i as int).push(classes@[i as int]));
            }
            i = i + 1;
        }
        assert(classes@.take(i as int) == classes@);
        Ok(is_new)
    }
}

/// The classes that the feedback looks at are those of the steps of the trace.
pub proof fn law_trace_has_classes(hasher: AHasher, log: Seq<LogEntry>)
    ensures
        steps_of(hasher, log).map_values(|step: Step| step.type_hash) == classes_of(log),
    decreases log.len(),
{
    if log.len() >= 2 {
        law_trace_has_classes(hasher, log.drop_last());
    }
    assert(steps_of(hasher, log).map_values(|step: Step| step.type_hash) =~= classes_of(log));
}

/// Only places of steps are marked: a place that looking at a log marks lies in the part of a
/// history that is needed for the classes of steps, and is the place of a class that steps
/// can have, with an opcode other than 0 (`STOP`) and 253 (`REVERT`).
pub proof fn law_marks_are_of_steps(
    feedback: EVMTypeHashFeedback,
    before: EVMFeedbackState,
    log: Seq<LogEntry>,
    after: EVMFeedbackState,
    result: Result<bool, Error>,
    place: int,
)
    requires
        before.wf(),
        is_judged_by(feedback, before, log, after, result),
        0 <= place < history_bits(before.history).len(),
        history_bits(after.history)[place],
        !history_bits(before.history)[place],
    ensures
        place < 44544,
        exists|class: TypeHash|
            {
                &&& #[trigger] class.packed_index() == place
                &&& class.is_step_class()
                &&& class.opcode != 0
                &&& class.opcode != 253
            },
{
    let classes = classes_of(log);
    law_classes_of_log(log);
    assert(is_place_of(classes, place));
    let i = choose|i: int|
        0 <= i < classes.len() && (#[trigger] classes[i]).packed_index() == place;
    law_step_class_in_history(classes[i]);
}

/// A log is interesting at most once: right after it was looked at, it is not interesting,
/// and looking at it again changes nothing of the history.
pub proof fn law_interesting_at_most_once(
    feedback: EVMTypeHashFeedback,
    before: EVMFeedbackState,
    log: Seq<LogEntry>,
    between: EVMFeedbackState,
    first: Result<bool, Error>,
    after: EVMFeedbackState,
    second: Result<bool, Error>,
)
    requires
        before.wf(),
        is_judged_by(feedback, before, log, between, first),
        is_judged_by(feedback, between, log, after, second),
    ensures
        second == Ok::<bool, Error>(false),
        history_bits(after.history) == history_bits(between.history),
{
    let classes = classes_of(log);
    if !(feedback.no_errors && some_step_failed(log)) {
        law_classes_of_log(log);
        assert forall|i: int| 0 <= i < classes.len() implies between.has_seen(
            #[trigger] classes[i],
        ) by {
            law_step_class_in_history(classes[i]);
            assert(is_place_of(classes, classes[i].packed_index()));
        }
        assert forall|k: int| 0 <= k < history_bits(
            between.history,
        ).len() implies #[trigger] history_bits(after.history)[k] == history_bits(between.history)[k] by {
            assert(history_bits(between.history)[k] == (history_bits(before.history)[k]
                || is_place_of(classes, k)));
        }
    }
    assert(history_bits(after.history) =~= history_bits(between.history));
}

/// What was seen stays seen, whatever log is looked at.
pub proof fn law_seen_stays_seen(
    feedback: EVMTypeHashFeedback,
    before: EVMFeedbackState,
    log: Seq<LogEntry>,
    after: EVMFeedbackState,
    result: Result<bool, Error>,
    class: TypeHash,
)
    requires
        before.wf(),
        is_judged_by(feedback, before, log, after, result),
        class.is_step_class(),
        before.has_seen(class),
    ensures
        after.wf(),
        after.has_seen(class),
{
    law_step_class_in_history(class);
}

/// A log is interesting exactly if looking at it changes the history.
pub proof fn law_interesting_changes_history(
    feedback: EVMTypeHashFeedback,
    before: EVMFeedbackState,
    log: Seq<LogEntry>,
    after: EVMFeedbackState,
    result: Result<bool, Error>,
)
    requires
        before.wf(),
        is_judged_by(feedback, before, log, after, result),
    ensures
        result == Ok::<bool, Error>(true) <==> history_bits(after.history) != history_bits(
            before.history,
        ),
{
    let classes = classes_of(log);
    if !(feedback.no_errors && some_step_failed(log)) {
        law_classes_of_log(log);
        if has_new_class(before, classes) {
            let i = choose|i: int|
                0 <= i < classes.len() && !before.has_seen(#[trigger] classes[i]);
            let k = classes[i].packed_index();
            law_step_class_in_history(classes[i]);
            assert(is_place_of(classes, k));
            assert(history_bits(after.history)[k]);
        } else {
            assert forall|k: int|
                0 <= k < history_bits(before.history).len() implies #[trigger] history_bits(
                    after.history,
                )[k] == history_bits(before.history)[k] by {
                if is_place_of(classes, k) {
                    let i = choose|i: int|
                        0 <= i < classes.len() && (#[trigger] classes[i]).packed_index() == k;
                    assert(before.has_seen(classes[i]));
                }
            }
            assert(history_bits(after.history) =~= history_bits(before.history));
        }
    }
}

/// A history is well-formed exactly if it has at least 44544 bits, and a class was seen
/// exactly if the bit at its place is set.
pub proof fn law_history(state: EVMFeedbackState, class: TypeHash, b: bool)
    requires
        call_ensures(EVMFeedbackState::is_well_formed, (&state,), b),
    ensures
        b == state.wf(),
        b <==> history_bits(state.history).len() >= 44544,
        state.has_seen(class) <==> history_bits(state.history)[class.packed_index()],
{
}

/// A fresh history has 65535 bits, none of them set.
pub proof fn law_init_state(feedback: EVMTypeHashFeedback, state: Result<EVMFeedbackState, Error>)
    requires
        call_ensures(EVMTypeHashFeedback::init_state, (&feedback,), state),
    ensures
        state is Ok,
        state->Ok_0.name@ == feedback.name@,
        history_bits(state->Ok_0.history).len() == 65535,
        forall|k: int| 0 <= k < 65535 ==> !(#[trigger] history_bits(state->Ok_0.history)[k]),
{
}

/// Marking a class sets the bit at its place and no other, and says whether it was clear.
pub proof fn law_mark(state: &mut EVMFeedbackState, class: TypeHash, is_new: bool)
    requires
        call_ensures(EVMFeedbackState::mark, (state, &class), is_new),
        old(state).wf(),
        class.is_step_class(),
    ensures
        is_new <==> !history_bits(old(state).history)[class.packed_index()],
        final(state).name == old(state).name,
        history_bits(final(state).history).len() == history_bits(old(state).history).len(),
        forall|k: int|
            0 <= k < history_bits(old(state).history).len() ==> #[trigger] history_bits(
                final(state).history,
            )[k] == (k == class.packed_index() || history_bits(old(state).history)[k]),
{
    law_step_class_in_history(class);
}

/// A log can be judged exactly if the history is well-formed and every step whose stack is
/// looked at has a memory.
pub proof fn law_can_judge(
    feedback: EVMTypeHashFeedback,
    state: EVMFeedbackState,
    log: Vec<EVMLog>,
    b: bool,
)
    requires
        call_ensures(EVMTypeHashFeedback::can_judge, (&feedback, &state, &log), b),
    ensures
        b <==> {
            &&& history_bits(state.history).len() >= 44544
            &&& forall|i: int|
                0 <= i < log@.len() - 1 && is_step(#[trigger] log@[i]@) && shows_stack(
                    log@[i]@,
                    log@[i + 1]@,
                ) ==> log@[i].memory is Some
        },
{
    let all = entries(log@);
    if b {
        assert forall|i: int|
            0 <= i < log@.len() - 1 && is_step(#[trigger] log@[i]@) && shows_stack(
                log@[i]@,
                log@[i + 1]@,
            ) implies log@[i].memory is Some by {
            assert(is_step(all[i]));
        }
    }
    if forall|i: int|
        0 <= i < log@.len() - 1 && is_step(#[trigger] log@[i]@) && shows_stack(
            log@[i]@,
            log@[i + 1]@,
        ) ==> log@[i].memory is Some {
        assert forall|i: int|
            0 <= i < all.len() - 1 && is_step(#[trigger] all[i]) implies has_memory_if_needed(
            all[i],
            all[i + 1],
        ) by {
            assert(is_step(log@[i]@));
        }
    }
}

/// The classes of a log are those of its steps, pair by pair of neighbouring entries, and a log
/// that is cut at one of its entries has the classes of the first part and then those of the
/// second.
pub proof fn law_classes_of_parts(log: Seq<LogEntry>, n: int, curr: LogEntry, next: LogEntry)
    requires
        0 <= n < log.len(),
    ensures
        classes_of(seq![curr]) == Seq::<TypeHash>::empty(),
        is_step(curr) ==> classes_of(seq![curr, next]) == seq![step_class(curr, next)],
        !is_step(curr) ==> classes_of(seq![curr, next]) == Seq::<TypeHash>::empty(),
        classes_of(log) == classes_of(log.take(n + 1)) + classes_of(log.skip(n)),
    decreases log.len(),
{
    assert(seq![curr, next].drop_last() == seq![curr]);
    assert(classes_of(seq![curr]) == Seq::<TypeHash>::empty());
    if n == log.len() - 1 {
        assert(log.take(n + 1) == log);
        assert(classes_of(log.skip(n)) == Seq::<TypeHash>::empty());
    } else {
        law_classes_of_parts(log.drop_last(), n, curr, next);
        assert(log.drop_last().take(n + 1) == log.take(n + 1));
        assert(log.drop_last().skip(n) == log.skip(n).drop_last());
    }
}

/// A class is among those of a log exactly if a pair of neighbouring entries is a step of that
/// class.
proof fn lemma_class_of_some_step(log: Seq<LogEntry>, class: TypeHash)
    ensures
        classes_of(log).contains(class) <==> exists|i: int|
            0 <= i < log.len() - 1 && #[trigger] is_step(log[i]) && step_class(log[i], log[i + 1])
                == class,
    decreases log.len(),
{
    if log.len() >= 2 {
        let shorter = log.drop_last();
        let last = log.len() - 2;
        lemma_class_of_some_step(shorter, class);
        if classes_of(log).contains(class) {
            let j = choose|j: int| 0 <= j < classes_of(log).len() && classes_of(log)[j] == class;
            if j < classes_of(shorter).len() {
                assert(classes_of(shorter)[j] == class);
                let i = choose|i: int|
                    0 <= i < shorter.len() - 1 && #[trigger] is_step(shorter[i]) && step_class(
                        shorter[i],
                        shorter[i + 1],
                    ) == class;
                assert(is_step(log[i]));
            } else {
                assert(is_step(log[last]));
            }
        }
        if exists|i: int|
            0 <= i < log.len() - 1 && #[trigger] is_step(log[i]) && step_class(log[i], log[i + 1])
                == class {
            let i = choose|i: int|
                0 <= i < log.len() - 1 && #[trigger] is_step(log[i]) && step_class(
                    log[i],
                    log[i + 1],
                ) == class;
            if i < last {
                assert(is_step(shorter[i]));
                let j = choose|j: int|
                    0 <= j < classes_of(shorter).len() && classes_of(shorter)[j] == class;
                assert(classes_of(log)[j] == class);
            } else {
                assert(classes_of(log).last() == class);
            }
        }
    }
}

/// A log is passed over exactly if failures are not wanted and some step failed: it is then not
/// interesting, and nothing changes. Any other log is interesting exactly if one of its steps
/// has a class whose bit is clear, and then the bits of all its steps are set, and no others.
pub proof fn law_interesting_by_steps(
    feedback: EVMTypeHashFeedback,
    state: &mut EVMFeedbackState,
    log: Vec<EVMLog>,
    result: Result<bool, Error>,
)
    requires
        call_ensures(EVMTypeHashFeedback::is_interesting, (&feedback, state, &log), result),
        old(state).wf(),
        has_all_memory(entries(log@)),
    ensures
        ({
            let all = entries(log@);
            let failed = exists|i: int|
                0 <= i < all.len() - 1 && #[trigger] is_step(all[i]) && has_failed(
                    all[i],
                    all[i + 1],
                );
            let is_new = exists|i: int|
                0 <= i < all.len() - 1 && #[trigger] is_step(all[i]) && !history_bits(
                    old(state).history,
                )[step_class(all[i], all[i + 1]).packed_index()];
            &&& feedback.no_errors && failed ==> result == Ok::<bool, Error>(false)
                && *final(state) == *old(state)
            &&& !(feedback.no_errors && failed) ==> result == Ok::<bool, Error>(is_new)
            &&& !(feedback.no_errors && failed) ==> forall|k: int|
                0 <= k < history_bits(old(state).history).len() ==> (#[trigger] history_bits(
                    final(state).history,
                )[k] <==> {
                    ||| history_bits(old(state).history)[k]
                    ||| exists|i: int|
                        0 <= i < all.len() - 1 && #[trigger] is_step(all[i]) && step_class(
                            all[i],
                            all[i + 1],
                        ).packed_index() == k
                })
        }),
        final(state).name == old(state).name,
        history_bits(final(state).history).len() == history_bits(old(state).history).len(),
{
    let all = entries(log@);
    let classes = classes_of(all);
    law_some_step_failed(all);
    if !(feedback.no_errors && some_step_failed(all)) {
        if has_new_class(*old(state), classes) {
            let j = choose|j: int|
                0 <= j < classes.len() && !old(state).has_seen(#[trigger] classes[j]);
            lemma_class_of_some_step(all, classes[j]);
            assert(classes.contains(classes[j]));
        }
        assert forall|i: int| 0 <= i < all.len() - 1 && #[trigger] is_step(all[i]) implies ({
            &&& classes.contains(step_class(all[i], all[i + 1]))
            &&& is_place_of(classes, step_class(all[i], all[i + 1]).packed_index())
        }) by {
            let class = step_class(all[i], all[i + 1]);
            lemma_class_of_some_step(all, class);
            let j = choose|j: int| 0 <= j < classes.len() && classes[j] == class;
            assert(classes[j].packed_index() == class.packed_index());
        }
        assert forall|k: int|
            0 <= k < history_bits(old(state).history).len() implies (#[trigger] history_bits(
            final(state).history,
        )[k] <==> {
            ||| history_bits(old(state).history)[k]
            ||| exists|i: int|
                0 <= i < all.len() - 1 && #[trigger] is_step(all[i]) && step_class(
                    all[i],
                    all[i + 1],
                ).packed_index() == k
        }) by {
            if is_place_of(classes, k) {
                let j = choose|j: int|
                    0 <= j < classes.len() && (#[trigger] classes[j]).packed_index() == k;
                lemma_class_of_some_step(all, classes[j]);
                assert(classes.contains(classes[j]));
            }
        }
    }
}

/// A feedback keeps what it is made of.
pub proof fn law_new_feedback(
    name: &str,
    no_errors: bool,
    stdout: StdOutObserver,
    feedback: EVMTypeHashFeedback,
)
    requires
        call_ensures(EVMTypeHashFeedback::new, (name, no_errors, &stdout), feedback),
    ensures
        feedback.name@ == name@,
        feedback.no_errors == no_errors,
        feedback.stdout_name@ == stdout.name@,
{
}

/// A copy of a state has the same name and the same bits.
pub proof fn law_copied_state(state: EVMFeedbackState, copy: EVMFeedbackState)
    requires
        call_ensures(<EVMFeedbackState as Clone>::clone, (&state,), copy),
    ensures
        copy.name@ == state.name@,
        history_bits(copy.history) == history_bits(state.history),
{
}

} // verus!
