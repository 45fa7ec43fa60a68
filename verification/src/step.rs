//! Steps: what two neighbouring log entries say of the instruction between them.

use vstd::prelude::*;
use vstd::slice::slice_subrange;
use vstd::utf8::encode_utf8;
use ahash::AHasher;
use crate::checksum::{
    hasher_after_write, hasher_after_writes, law_writes_in_order, lemma_one_more_write, write_bytes,
};
use crate::evm_log::{text_view, EVMLog, LogEntry};
use crate::text::{parse_unsigned, trim_zeros, trimmed_len, u32_from_hex, views};
use crate::type_hash::{is_type, TypeHash};

verus! {

/// The opcode `REVERT`.
pub const OP_REVERT: u8 = 253;

/// The opcode `STOP`.
pub const OP_STOP: u8 = 0;

/// Whether the instruction of an entry counts as a step: the entry has an opcode, which is
/// neither `STOP` nor `REVERT`, and a gas cost.
pub open spec fn is_step(curr: LogEntry) -> bool {
    &&& curr.op is Some
    &&& curr.op != Some(OP_STOP)
    &&& curr.op != Some(OP_REVERT)
    &&& curr.gas_cost is Some
}

/// Whether a text is given and not empty.
pub open spec fn has_text(text: Option<Seq<char>>) -> bool {
    text matches Some(s) && s.len() > 0
}

/// Whether the step from `curr` to `next` failed: `next` reports an error and is no
/// instruction or carries an output, or `curr` reports an error.
pub open spec fn has_failed(curr: LogEntry, next: LogEntry) -> bool {
    ||| has_text(next.error) && (next.op is None || next.output is Some)
    ||| has_text(curr.error)
}

/// Whether the stack after the step is looked at: the step did not fail, and `next` is an
/// instruction other than `STOP` that shows a stack.
pub open spec fn shows_stack(curr: LogEntry, next: LogEntry) -> bool {
    &&& !has_failed(curr, next)
    &&& next.stack is Some
    &&& next.op is Some
    &&& next.op != Some(OP_STOP)
}

/// Whether `curr` has the memory that is needed where the stack is looked at.
pub open spec fn has_memory_if_needed(curr: LogEntry, next: LogEntry) -> bool {
    shows_stack(curr, next) ==> curr.memory is Some
}

/// The type of a stack item by its spelling: 1 for a hexadecimal number of 32 bits, else 2
/// for 40 or 42 bytes, 3 for more than 42, 5 for less than 40, and none for 41.
pub open spec fn item_type(item: Seq<char>) -> Option<u8> {
    let len = encode_utf8(item).len();
    if parse_unsigned(item, 16, u32::MAX as nat) is Some {
        Some(1u8)
    } else if len == 40 || len == 42 {
        Some(2u8)
    } else if len > 42 {
        Some(3u8)
    } else if len < 40 {
        Some(5u8)
    } else {
        None
    }
}

/// The types of the items of a stack that have one, from the top down.
pub open spec fn item_types(stack: Seq<Seq<char>>) -> Seq<u8>
    decreases stack.len(),
{
    if stack.len() == 0 {
        seq![]
    } else {
        match item_type(stack.last()) {
            Some(t) => seq![t] + item_types(stack.drop_last()),
            None => item_types(stack.drop_last()),
        }
    }
}

/// The type at place `i`, or 0 where there is none.
pub open spec fn type_or_zero(types: Seq<u8>, i: int) -> u8 {
    if i < types.len() {
        types[i]
    } else {
        0
    }
}

/// The class of the step from `curr` to `next`.
pub open spec fn step_class(curr: LogEntry, next: LogEntry) -> TypeHash {
    let types = if shows_stack(curr, next) {
        item_types(next.stack->0)
    } else {
        seq![]
    };
    TypeHash {
        mem_flag: shows_stack(curr, next) && encode_utf8(curr.memory->0).len() > 2,
        t1: type_or_zero(types, 0),
        t2: type_or_zero(types, 1),
        opcode: curr.op->0,
    }
}

/// What the step from `curr` to `next` adds to the checksum, write by write. A failed step
/// adds nothing. Any other adds, where the stack is looked at, its items from the top down
/// and the memory without trailing `0`s, and then always the opcode and the gas cost.
pub open spec fn step_writes(curr: LogEntry, next: LogEntry) -> Seq<Seq<u8>> {
    let shown = if shows_stack(curr, next) {
        next.stack->0.reverse().map_values(|item: Seq<char>| encode_utf8(item)).push(
            encode_utf8(trim_zeros(curr.memory->0)),
        )
    } else {
        seq![]
    };
    if has_failed(curr, next) {
        seq![]
    } else {
        shown.push(seq![curr.op->0]).push(encode_utf8(curr.gas_cost->0))
    }
}

/// A failed step leaves the checksum as it is.
pub proof fn law_failed_step_keeps_checksum(hasher: AHasher, curr: LogEntry, next: LogEntry)
    requires
        has_failed(curr, next),
    ensures
        hasher_after_writes(hasher, step_writes(curr, next)) == hasher,
{
}

/// The `0`s at the end of the memory make no difference to a checksum.
pub proof fn law_trailing_zeros_do_not_count(curr: LogEntry, memory: Seq<char>, next: LogEntry)
    requires
        curr.memory is Some,
        trim_zeros(memory) == trim_zeros(curr.memory->0),
    ensures
        step_writes(LogEntry { memory: Some(memory), ..curr }, next) == step_writes(curr, next),
{
}

/// Every step has one of the classes that steps can have.
pub proof fn law_step_class(curr: LogEntry, next: LogEntry)
    ensures
        step_class(curr, next).is_step_class(),
{
    if shows_stack(curr, next) {
        lemma_item_types(next.stack->0);
    }
}

/// The types of stack items are types, and none is 0.
proof fn lemma_item_types(stack: Seq<Seq<char>>)
    ensures
        forall|i: int|
            0 <= i < item_types(stack).len() ==> is_type(#[trigger] item_types(stack)[i])
                && item_types(stack)[i] != 0,
    decreases stack.len(),
{
    if stack.len() > 0 {
        let rest = item_types(stack.drop_last());
        lemma_item_types(stack.drop_last());
        assert forall|i: int| 0 <= i < item_types(stack).len() implies is_type(
            #[trigger] item_types(stack)[i],
        ) && item_types(stack)[i] != 0 by {
            if item_type(stack.last()) is Some {
                if i > 0 {
                    assert(item_types(stack)[i] == rest[i - 1]);
                }
            } else {
                assert(item_types(stack)[i] == rest[i]);
            }
        }
    }
}

impl EVMLog {
    /// Whether the instruction of the entry counts as a step.
    pub fn is_step(&self) -> (b: bool)
        ensures
            b == is_step(self@),
    {
        match self.op {
            Some(op) => op != OP_STOP && op != OP_REVERT && self.gas_cost.is_some(),
            None => false,
        }
    }

    /// Whether the step from this entry to `next` failed.
    pub fn has_failed(&self, next: &EVMLog) -> (b: bool)
        ensures
            b == has_failed(self@, next@),
    {
        if is_given(&next.error) && (next.op.is_none() || next.output.is_some()) {
            true
        } else {
            is_given(&self.error)
        }
    }

    /// Whether the stack after the step from this entry to `next` is looked at.
    pub fn shows_stack(&self, next: &EVMLog) -> (b: bool)
        ensures
            b == shows_stack(self@, next@),
    {
        if self.has_failed(next) || next.stack.is_none() {
            return false;
        }
        match next.op {
            Some(op) => op != OP_STOP,
            None => false,
        }
    }

    /// Whether the entry has the memory that is needed where the stack after the step to
    /// `next` is looked at.
    pub fn has_memory_if_needed(&self, next: &EVMLog) -> (b: bool)
        ensures
            b == has_memory_if_needed(self@, next@),
    {
        self.memory.is_some() || !self.shows_stack(next)
    }
}

/// Whether a text is given and not empty.
fn is_given(text: &Option<String>) -> (b: bool)
    ensures
        b == has_text(text_view(*text)),
{
    match text {
        Some(s) => !s.as_str().is_empty(),
        None => false,
    }
}

/// The type of a stack item by its spelling.
pub fn classify_item(item: &str) -> (t: Option<u8>)
    ensures
        t == item_type(item@),
{
    let len: usize = item.as_bytes().len();
    if u32_from_hex(item).is_some() {
        Some(1)
    } else if len == 40 || len == 42 {
        Some(2)
    } else if len > 42 {
        Some(3)
    } else if len < 40 {
        Some(5)
    } else {
        None
    }
}

/// The types of the two topmost items of a stack that have one, 0 where there is none.
pub fn classify_stack(stack: &Vec<String>) -> (types: (u8, u8))
    ensures
        types.0 == type_or_zero(item_types(views(stack@)), 0),
        types.1 == type_or_zero(item_types(views(stack@)), 1),
{
    let ghost items = views(stack@);
    let mut types: Vec<u8> = Vec::new();
    let mut left: usize = stack.len();
    assert(items.take(left as int) == items);
    assert(types@ + item_types(items) == item_types(items));
    while left > 0 && types.len() < 2
        invariant
            items == views(stack@),
            left <= stack@.len(),
            types@.len() <= 2,
            item_types(items) == types@ + item_types(items.take(left as int)),
        decreases left,
    {
        let ghost before = types@;
        left = left - 1;
        assert(items.take(left + 1).drop_last() == items.take(left as int));
        assert(items.take(left + 1).last() == stack@[left as int]@);
        if let Some(t) = classify_item(stack[left].as_str()) {
            types.push(t);
            assert(before + (seq![t] + item_types(items.take(left as int))) == types@ + item_types(
                items.take(left as int),
            ));
        }
    }
    while types.len() < 2
        invariant
            items == views(stack@),
            types@.len() <= 2,
            types@.len() < item_types(items).len() ==> types@.len() >= 2,
            forall|i: int|
                0 <= i < types@.len() ==> #[trigger] types@[i] == type_or_zero(
                    item_types(items),
                    i,
                ),
        decreases 2 - types@.len(),
    {
        types.push(0);
    }
    (types[0], types[1])
}

/// The class of the step from `curr` to `next`.
pub fn classify(curr: &EVMLog, next: &EVMLog) -> (class: TypeHash)
    requires
        is_step(curr@),
        has_memory_if_needed(curr@, next@),
    ensures
        class == step_class(curr@, next@),
{
    let opcode: u8 = match curr.op {
        Some(op) => op,
        None => 0,
    };
    if curr.shows_stack(next) {
        if let (Some(stack), Some(memory)) = (&next.stack, &curr.memory) {
            let types = classify_stack(stack);
            return TypeHash {
                mem_flag: memory.as_str().as_bytes().len() > 2,
                t1: types.0,
                t2: types.1,
                opcode,
            };
        }
    }
    TypeHash { mem_flag: false, t1: 0, t2: 0, opcode }
}

/// Adds the step from `curr` to `next` to a checksum, unless it failed.
pub fn write_step(hasher: &mut AHasher, curr: &EVMLog, next: &EVMLog)
    requires
        is_step(curr@),
        has_memory_if_needed(curr@, next@),
    ensures
        *final(hasher) == hasher_after_writes(*old(hasher), step_writes(curr@, next@)),
{
    if curr.has_failed(next) {
        return;
    }
    let ghost start = *hasher;
    let ghost mut done: Seq<Seq<u8>> = seq![];
    if curr.shows_stack(next) {
        if let (Some(stack), Some(memory)) = (&next.stack, &curr.memory) {
            let ghost items = views(stack@);
            let ghost shown = items.reverse().map_values(|item: Seq<char>| encode_utf8(item));
            let mut left: usize = stack.len();
            assert(shown.take(0) == done);
            while left > 0
                invariant
                    items == views(stack@),
                    shown == items.reverse().map_values(|item: Seq<char>| encode_utf8(item)),
                    left <= stack@.len(),
                    *hasher == hasher_after_writes(start, shown.take(stack@.len() - left)),
                decreases left,
            {
                left = left - 1;
                let ghost k = stack@.len() - left;
                write_bytes(hasher, stack[left].as_str().as_bytes());
                proof {
                    let item = encode_utf8(stack@[left as int]@);
                    lemma_one_more_write(start, shown.take(k - 1), item);
                    assert(shown.take(k) == shown.take(k - 1).push(item));
                }
            }
            let bytes = memory.as_str().as_bytes();
            let len: usize = trimmed_len(memory.as_str());
            write_bytes(hasher, slice_subrange(bytes, 0, len));
            proof {
                assert(shown.take(stack@.len() as int) == shown);
                assert(bytes@.subrange(0, len as int) == bytes@.take(len as int));
                done = shown.push(encode_utf8(trim_zeros(memory@)));
                lemma_one_more_write(start, shown, encode_utf8(trim_zeros(memory@)));
            }
        }
    }
    assert(*hasher == hasher_after_writes(start, done));
    if let (Some(op), Some(gas_cost)) = (curr.op, &curr.gas_cost) {
        let op_byte: [u8; 1] = [op];
        write_bytes(hasher, op_byte.as_slice());
        write_bytes(hasher, gas_cost.as_str().as_bytes());
        proof {
            assert(op_byte@ == seq![op]);
            lemma_one_more_write(start, done, seq![op]);
            lemma_one_more_write(start, done.push(seq![op]), encode_utf8(gas_cost@));
            assert(step_writes(curr@, next@) == done.push(seq![op]).push(encode_utf8(gas_cost@)));
        }
    }
}

/// An entry counts as a step exactly if it has an opcode other than 0 and 253 and a gas cost,
/// whatever the gas cost and its other fields are.
pub proof fn law_is_step(entry: EVMLog, b: bool)
    requires
        call_ensures(EVMLog::is_step, (&entry,), b),
    ensures
        b == is_step(entry@),
        b <==> {
            &&& entry.op is Some
            &&& entry.op->0 != 0
            &&& entry.op->0 != 253
            &&& entry.gas_cost is Some
        },
{
}

/// Entries with the same opcode and a gas cost each are steps alike.
pub proof fn law_is_step_by_opcode(a: LogEntry, b: LogEntry)
    requires
        a.op == b.op,
        a.gas_cost is Some,
        b.gas_cost is Some,
    ensures
        is_step(a) == is_step(b),
        is_step(a) <==> (a.op matches Some(op) && op != 0 && op != 253),
        !is_step(LogEntry { gas_cost: None, ..a }),
        !is_step(LogEntry { op: None, ..a }),
{
}

/// A step failed exactly if its entry reports an error, or the next entry reports one and has
/// no opcode or has an output. An error is a text that is not empty. Nothing else matters.
pub proof fn law_has_failed(curr: EVMLog, next: EVMLog, b: bool)
    requires
        call_ensures(EVMLog::has_failed, (&curr, &next), b),
    ensures
        b == has_failed(curr@, next@),
        (curr.error matches Some(e) && e@.len() > 0) ==> b,
        (next.error matches Some(e) && e@.len() > 0) && next.op is None ==> b,
        (next.error matches Some(e) && e@.len() > 0) && next.output is Some ==> b,
        b ==> {
            ||| curr.error matches Some(e) && e@.len() > 0
            ||| (next.error matches Some(e) && e@.len() > 0) && (next.op is None
                || next.output is Some)
        },
{
}

/// The same of what entries say.
pub proof fn law_failed_entries(curr: LogEntry, next: LogEntry)
    ensures
        has_failed(curr, next) <==> {
            ||| curr.error is Some && curr.error->0.len() > 0
            ||| next.error is Some && next.error->0.len() > 0 && next.op is None
            ||| next.error is Some && next.error->0.len() > 0 && next.output is Some
        },
{
}

/// The stack is looked at exactly after a step that did not fail, where the next entry has a
/// stack and an opcode other than 0. Nothing else matters.
pub proof fn law_shows_stack(curr: EVMLog, next: EVMLog, failed: bool, b: bool)
    requires
        call_ensures(EVMLog::has_failed, (&curr, &next), failed),
        call_ensures(EVMLog::shows_stack, (&curr, &next), b),
    ensures
        b == shows_stack(curr@, next@),
        b <==> !failed && next.stack is Some && next.op is Some && next.op->0 != 0,
{
}

/// The same of what entries say.
pub proof fn law_shown_stack(curr: LogEntry, next: LogEntry)
    ensures
        shows_stack(curr, next) <==> !has_failed(curr, next) && next.stack is Some && (
        next.op matches Some(op) && op != 0),
{
}

/// The memory is missing exactly where the stack is looked at and the entry has no memory.
pub proof fn law_memory_if_needed(curr: EVMLog, next: EVMLog, shown: bool, b: bool)
    requires
        call_ensures(EVMLog::shows_stack, (&curr, &next), shown),
        call_ensures(EVMLog::has_memory_if_needed, (&curr, &next), b),
    ensures
        b == has_memory_if_needed(curr@, next@),
        !b <==> shown && curr.memory is None,
{
}

/// The type of an item by its spelling: 1 for a hexadecimal number below 2^32, else by its
/// number of bytes.
pub proof fn law_item_type(item: &str, t: Option<u8>)
    requires
        call_ensures(classify_item, (item,), t),
    ensures
        t == item_type(item@),
        parse_unsigned(item@, 16, 0xffff_ffff) is Some ==> t == Some(1u8),
        parse_unsigned(item@, 16, 0xffff_ffff) is None ==> {
            &&& encode_utf8(item@).len() < 40 ==> t == Some(5u8)
            &&& encode_utf8(item@).len() == 40 ==> t == Some(2u8)
            &&& encode_utf8(item@).len() == 41 ==> t is None
            &&& encode_utf8(item@).len() == 42 ==> t == Some(2u8)
            &&& encode_utf8(item@).len() > 42 ==> t == Some(3u8)
        },
{
}

/// The same of an item of a stack.
pub proof fn law_type_of_item(item: Seq<char>)
    ensures
        item_type(item) == Some(1u8) <==> parse_unsigned(item, 16, 0xffff_ffff) is Some,
        parse_unsigned(item, 16, 0xffff_ffff) is None ==> {
            &&& item_type(item) == Some(5u8) <==> encode_utf8(item).len() < 40
            &&& item_type(item) == Some(2u8) <==> (encode_utf8(item).len() == 40 || encode_utf8(
                item,
            ).len() == 42)
            &&& item_type(item) == Some(3u8) <==> encode_utf8(item).len() > 42
            &&& item_type(item) is None <==> encode_utf8(item).len() == 41
        },
{
}

/// The types of a stack go from the top down: those of a stack that is put on another come
/// first, and one item has its type or none.
pub proof fn law_item_types(bottom: Seq<Seq<char>>, top: Seq<Seq<char>>, item: Seq<char>)
    ensures
        item_types(seq![]) == Seq::<u8>::empty(),
        item_type(item) is None ==> item_types(seq![item]) == Seq::<u8>::empty(),
        item_type(item) matches Some(t) ==> item_types(seq![item]) == seq![t],
        item_types(bottom + top) == item_types(top) + item_types(bottom),
    decreases top.len(),
{
    assert(seq![item].drop_last() == Seq::<Seq<char>>::empty());
    assert(item_types(Seq::<Seq<char>>::empty()) == Seq::<u8>::empty());
    if top.len() == 0 {
        assert(bottom + top == bottom);
    } else {
        law_item_types(bottom, top.drop_last(), item);
        assert((bottom + top).drop_last() == bottom + top.drop_last());
    }
}

/// How the two types of a stack change when an item is put on it: an item without a type
/// changes nothing, and one with a type takes the first place and moves the first type to the
/// second. An empty stack has none.
pub proof fn law_stack_types_by_top(
    stack: Vec<String>,
    types: (u8, u8),
    higher: Vec<String>,
    higher_types: (u8, u8),
    item: &str,
    t: Option<u8>,
)
    requires
        call_ensures(classify_stack, (&stack,), types),
        call_ensures(classify_stack, (&higher,), higher_types),
        call_ensures(classify_item, (item,), t),
        higher@.len() == stack@.len() + 1,
        forall|i: int| 0 <= i < stack@.len() ==> #[trigger] higher@[i]@ == stack@[i]@,
        higher@.last()@ == item@,
    ensures
        stack@.len() == 0 ==> types == (0u8, 0u8),
        t is None ==> higher_types == types,
        t matches Some(first) ==> higher_types == (first, types.0),
{
    assert(views(higher@).drop_last() == views(stack@));
    assert(views(higher@).last() == item@);
    if let Some(first) = t {
        let rest = item_types(views(stack@));
        assert(item_types(views(higher@)) == seq![first] + rest);
        if rest.len() > 0 {
            assert((seq![first] + rest)[1] == rest[0]);
        }
    }
}

/// The class of a step: the opcode of its entry always; where the stack is looked at, the two
/// types of the next entry's stack, and the memory flag exactly if the memory of its entry has
/// more than two bytes, however many; elsewhere no types and no flag.
pub proof fn law_classify(
    curr: EVMLog,
    next: EVMLog,
    shown: bool,
    stack: Vec<String>,
    types: (u8, u8),
    class: TypeHash,
)
    requires
        call_ensures(EVMLog::shows_stack, (&curr, &next), shown),
        call_ensures(classify_stack, (&stack,), types),
        call_ensures(classify, (&curr, &next), class),
        is_step(curr@),
        has_memory_if_needed(curr@, next@),
        next.stack matches Some(items) ==> stack@ == items@,
    ensures
        class == step_class(curr@, next@),
        curr.op == Some(class.opcode),
        shown ==> class.t1 == types.0 && class.t2 == types.1,
        shown ==> (class.mem_flag <==> encode_utf8(curr.memory->0@).len() > 2),
        !shown ==> class.t1 == 0 && class.t2 == 0 && !class.mem_flag,
{
}

/// The fields of a class by what entries say.
pub proof fn law_step_class_by_entries(curr: LogEntry, next: LogEntry)
    ensures
        step_class(curr, next).opcode == curr.op->0,
        shows_stack(curr, next) ==> (step_class(curr, next).mem_flag <==> encode_utf8(
            curr.memory->0,
        ).len() > 2),
        !shows_stack(curr, next) ==> {
            &&& !step_class(curr, next).mem_flag
            &&& step_class(curr, next).t1 == 0
            &&& step_class(curr, next).t2 == 0
        },
        shows_stack(curr, next) ==> {
            let types = item_types(next.stack->0);
            &&& types.len() == 0 ==> step_class(curr, next).t1 == 0
            &&& types.len() >= 1 ==> step_class(curr, next).t1 == types[0]
            &&& types.len() <= 1 ==> step_class(curr, next).t2 == 0
            &&& types.len() >= 2 ==> step_class(curr, next).t2 == types[1]
        },
{
}

/// More memory keeps the memory flag set, and memory of three characters or more sets it.
pub proof fn law_memory_flag_stays(curr: LogEntry, more: Seq<char>, next: LogEntry)
    requires
        curr.memory is Some,
        shows_stack(curr, next),
    ensures
        step_class(curr, next).mem_flag ==> step_class(
            LogEntry { memory: Some(curr.memory->0 + more), ..curr },
            next,
        ).mem_flag,
        curr.memory->0.len() > 2 ==> step_class(curr, next).mem_flag,
{
    crate::text::lemma_encode_concat(curr.memory->0, more);
    crate::text::lemma_encode_len(curr.memory->0);
}

/// What a step adds to the checksum: nothing if it failed; else, where the stack is looked at,
/// each item from the top down and the trimmed memory; then the opcode and the gas cost.
pub proof fn law_step_writes(curr: LogEntry, next: LogEntry, i: int)
    ensures
        has_failed(curr, next) ==> step_writes(curr, next).len() == 0,
        !has_failed(curr, next) && !shows_stack(curr, next) ==> step_writes(curr, next) == seq![
            seq![curr.op->0],
            encode_utf8(curr.gas_cost->0),
        ],
        shows_stack(curr, next) ==> {
            let writes = step_writes(curr, next);
            let stack = next.stack->0;
            &&& writes.len() == stack.len() + 3
            &&& 0 <= i < stack.len() ==> writes[i] == encode_utf8(stack[stack.len() - 1 - i])
            &&& writes[stack.len() as int] == encode_utf8(trim_zeros(curr.memory->0))
            &&& writes[stack.len() as int + 1] == seq![curr.op->0]
            &&& writes[stack.len() as int + 2] == encode_utf8(curr.gas_cost->0)
        },
{
}

/// A step is added to a checksum as its writes, one after the other.
pub proof fn law_write_step(hasher: &mut AHasher, curr: EVMLog, next: EVMLog, unit: ())
    requires
        call_ensures(write_step, (hasher, &curr, &next), unit),
        is_step(curr@),
        has_memory_if_needed(curr@, next@),
    ensures
        *final(hasher) == hasher_after_writes(*old(hasher), step_writes(curr@, next@)),
        has_failed(curr@, next@) ==> *final(hasher) == *old(hasher),
        !has_failed(curr@, next@) && !shows_stack(curr@, next@) ==> *final(hasher)
            == hasher_after_write(
            hasher_after_write(*old(hasher), seq![curr.op->0]),
            encode_utf8(curr.gas_cost->0@),
        ),
{
    if !has_failed(curr@, next@) && !shows_stack(curr@, next@) {
        let op = seq![curr.op->0];
        let gas = encode_utf8(curr.gas_cost->0@);
        law_step_writes(curr@, next@, 0);
        law_writes_in_order(*old(hasher), seq![op], seq![gas], op);
        law_writes_in_order(hasher_after_write(*old(hasher), op), seq![], seq![], gas);
        assert(step_writes(curr@, next@) == seq![op] + seq![gas]);
    }
}

} // verus!
