//! The log of an EVM run: one entry per executed instruction.

use vstd::prelude::*;

verus! {

/// One line of the JSON log that an EVM writes while it runs.
#[derive(Debug)]
pub struct EVMLog {
    /// The program counter.
    pub pc: Option<u64>,
    /// The error that the EVM reports.
    pub error: Option<String>,
    /// The gas cost of the instruction.
    pub gas_cost: Option<String>,
    /// The memory before the instruction, in hexadecimal.
    pub memory: Option<String>,
    /// The output of the run.
    pub output: Option<String>,
    /// The opcode of the instruction.
    pub op: Option<u8>,
    /// The stack before the instruction, from the bottom to the top.
    pub stack: Option<Vec<String>>,
}

/// What an [`EVMLog`] says, with texts as sequences of characters.
pub struct LogEntry {
    pub pc: Option<u64>,
    pub error: Option<Seq<char>>,
    pub gas_cost: Option<Seq<char>>,
    pub memory: Option<Seq<char>>,
    pub output: Option<Seq<char>>,
    pub op: Option<u8>,
    pub stack: Option<Seq<Seq<char>>>,
}

/// The characters of an optional text.
pub open spec fn text_view(text: Option<String>) -> Option<Seq<char>> {
    match text {
        Some(s) => Some(s@),
        None => None,
    }
}

impl View for EVMLog {
    type V = LogEntry;

    open spec fn view(&self) -> LogEntry {
        LogEntry {
            pc: self.pc,
            error: text_view(self.error),
            gas_cost: text_view(self.gas_cost),
            memory: text_view(self.memory),
            output: text_view(self.output),
            op: self.op,
            stack: match self.stack {
                Some(items) => Some(crate::text::views(items@)),
                None => None,
            },
        }
    }
}

/// What each entry of a log says.
pub open spec fn entries(log: Seq<EVMLog>) -> Seq<LogEntry> {
    log.map_values(|entry: EVMLog| entry@)
}

/// The entries among `parsed`, in order, without the lines that were no entry.
pub open spec fn parsed_entries(parsed: Seq<Option<EVMLog>>) -> Seq<EVMLog>
    decreases parsed.len(),
{
    if parsed.len() == 0 {
        seq![]
    } else {
        match parsed.last() {
            Some(entry) => parsed_entries(parsed.drop_last()).push(entry),
            None => parsed_entries(parsed.drop_last()),
        }
    }
}

/// Collects a log from the outcomes of parsing its lines: lines that are no entry are
/// left out.
pub fn collect_log(parsed: Vec<Option<EVMLog>>) -> (log: Vec<EVMLog>)
    ensures
        log@ == parsed_entries(parsed@),
{
    let mut log: Vec<EVMLog> = Vec::new();
    let ghost lines = parsed@;
    for line in it: parsed
        invariant
            it.seq() == lines,
            log@ == parsed_entries(lines.take(it.index() as int)),
    {
        let ghost i = it.index() as int;
        proof {
            assert(lines.take(i + 1).drop_last() == lines.take(i));
            assert(lines.take(i + 1).last() == lines[i]);
        }
        if let Some(entry) = line {
            log.push(entry);
        }
    }
    proof {
        assert(lines.take(lines.len() as int) == lines);
    }
    log
}

/// What an entry says is what its fields say.
pub proof fn law_log_entry(entry: EVMLog)
    ensures
        entry@.pc == entry.pc,
        entry@.op == entry.op,
        entry@.error is Some <==> entry.error is Some,
        entry.error matches Some(s) ==> entry@.error == Some(s@),
        entry@.gas_cost is Some <==> entry.gas_cost is Some,
        entry.gas_cost matches Some(s) ==> entry@.gas_cost == Some(s@),
        entry@.memory is Some <==> entry.memory is Some,
        entry.memory matches Some(s) ==> entry@.memory == Some(s@),
        entry@.output is Some <==> entry.output is Some,
        entry.output matches Some(s) ==> entry@.output == Some(s@),
        entry@.stack is Some <==> entry.stack is Some,
        entry.stack matches Some(items) ==> {
            &&& entry@.stack->0.len() == items@.len()
            &&& forall|i: int|
                0 <= i < items@.len() ==> #[trigger] entry@.stack->0[i] == items@[i]@
        },
{
}

/// Every entry of a log is looked at, in its place.
pub proof fn law_entries(log: Seq<EVMLog>, i: int)
    requires
        0 <= i < log.len(),
    ensures
        entries(log).len() == log.len(),
        entries(log)[i] == log[i]@,
{
}

/// A line that is no entry is left out, one that is an entry is kept, and the entries of a
/// list of lines that is split in two are those of the first part and then those of the
/// second.
pub proof fn law_parsed_entries(
    first: Seq<Option<EVMLog>>,
    second: Seq<Option<EVMLog>>,
    entry: EVMLog,
)
    ensures
        parsed_entries(seq![]) == Seq::<EVMLog>::empty(),
        parsed_entries(seq![None]) == Seq::<EVMLog>::empty(),
        parsed_entries(seq![Some(entry)]) == seq![entry],
        parsed_entries(first + second) == parsed_entries(first) + parsed_entries(second),
{
    let none = Seq::<Option<EVMLog>>::empty();
    assert(parsed_entries(none) == Seq::<EVMLog>::empty());
    assert(seq![None::<EVMLog>].drop_last() == none);
    assert(seq![Some(entry)].drop_last() == none);
    lemma_parsed_concat(first, second);
}

/// The logs of two lists of lines, one after the other, make the log of both.
pub proof fn law_collect_log_of_parts(
    first: Vec<Option<EVMLog>>,
    first_log: Vec<EVMLog>,
    second: Vec<Option<EVMLog>>,
    second_log: Vec<EVMLog>,
    both: Vec<Option<EVMLog>>,
    log: Vec<EVMLog>,
)
    requires
        call_ensures(collect_log, (first,), first_log),
        call_ensures(collect_log, (second,), second_log),
        call_ensures(collect_log, (both,), log),
        both@ == first@ + second@,
    ensures
        log@ == first_log@ + second_log@,
        both@.len() == 1 ==> (log@.len() == 1 <==> both@[0] is Some),
        both@.len() == 1 && both@[0] is Some ==> log@ == seq![both@[0]->0],
        both@.len() == 0 || both@ == seq![None::<EVMLog>] ==> log@.len() == 0,
{
    if both@.len() == 1 {
        match both@[0] {
            Some(entry) => {
                law_parsed_entries(first@, second@, entry);
                assert(both@ == seq![Some(entry)]);
            },
            None => {
                assert(both@ == seq![None::<EVMLog>]);
                assert(both@.drop_last() == Seq::<Option<EVMLog>>::empty());
                assert(parsed_entries(both@.drop_last()).len() == 0);
                lemma_parsed_concat(first@, second@);
            },
        }
    } else {
        lemma_parsed_concat(first@, second@);
    }
}

/// The entries of two lists of lines, one after the other.
proof fn lemma_parsed_concat(first: Seq<Option<EVMLog>>, second: Seq<Option<EVMLog>>)
    ensures
        parsed_entries(first + second) == parsed_entries(first) + parsed_entries(second),
    decreases second.len(),
{
    if second.len() == 0 {
        assert(first + second == first);
    } else {
        lemma_parsed_concat(first, second.drop_last());
        assert((first + second).drop_last() == first + second.drop_last());
    }
}

} // verus!
