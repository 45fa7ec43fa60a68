//! Inputs: EVM bytecode, handed to the targets in hexadecimal.

use vstd::prelude::*;
use vstd::string::*;
use vstd::utf8::*;
use crate::oracle::{DiffOracle, Report};
use crate::text::{
    decimal, decimal_chars, lemma_decimal_injective, lemma_decimal_is_digits, lemma_split_at_mark,
};
use crate::type_hash::{law_label_tells_step_classes_apart, TypeHash};

verus! {

/// An input: the raw bytes of the code to run.
#[derive(Clone, Debug, PartialEq, Eq, Hash)]
pub struct HexInput {
    pub bytes: Vec<u8>,
}

/// The lower-case hexadecimal digit of `d`, for `d < 16`.
pub open spec fn hex_digit(d: int) -> u8 {
    if d < 10 {
        (48 + d) as u8
    } else {
        (87 + d) as u8
    }
}

/// `bytes` in hexadecimal: two digits each, the high one first.
pub open spec fn hex_bytes(bytes: Seq<u8>) -> Seq<u8> {
    Seq::new(
        2 * bytes.len(),
        |i: int|
            hex_digit(
                if i % 2 == 0 {
                    bytes[i / 2] as int / 16
                } else {
                    bytes[i / 2] as int % 16
                },
            ),
    )
}

/// `hex::encode`: the contract claims that each byte becomes two lower-case hexadecimal
/// digits, the high one first. The text has to fit in a string.
#[verifier::external_body]
pub(crate) fn hex_encode(data: &[u8]) -> (text: String)
    requires
        2 * data@.len() <= isize::MAX,
    ensures
        text@ == hex_bytes(data@).map_values(|b: u8| b as char),
{
    hex::encode(data)
}

impl Default for HexInput {
    fn default() -> (input: HexInput)
        ensures
            input.bytes@ == Seq::<u8>::empty(),
    {
        HexInput { bytes: Vec::new() }
    }
}

impl HexInput {
    /// An input of these bytes.
    #[must_use]
    pub fn new(bytes: Vec<u8>) -> (input: HexInput)
        ensures
            input.bytes == bytes,
    {
        HexInput { bytes }
    }

    /// The raw bytes.
    pub fn bytes(&self) -> (bytes: &[u8])
        ensures
            bytes@ == self.bytes@,
    {
        self.bytes.as_slice()
    }

    /// The raw bytes, lent out for changes.
    pub fn bytes_mut(&mut self) -> (bytes: &mut Vec<u8>)
        ensures
            *bytes == old(self).bytes,
            final(self).bytes == *final(bytes),
    {
        &mut self.bytes
    }

    /// The number of raw bytes.
    pub fn len(&self) -> (len: usize)
        ensures
            len == self.bytes@.len(),
    {
        self.bytes.len()
    }

    /// What a target is handed: the bytes in hexadecimal.
    pub fn target_bytes(&self) -> (target: Vec<u8>)
        requires
            2 * self.bytes@.len() <= isize::MAX,
        ensures
            target@ == hex_bytes(self.bytes@),
    {
        let text = hex_encode(self.bytes.as_slice());
        proof {
            assert(is_ascii_chars(text@));
            is_ascii_chars_encode_utf8(text@);
            assert(encode_utf8(text@) =~= hex_bytes(self.bytes@));
        }
        text.as_str().as_bytes_vec()
    }

    /// A name for this input as one on which the two sides differ: the last report, the
    /// seconds since the start, and the number of runs so far.
    pub fn generate_name(&self, _idx: usize, oracle: &DiffOracle, elapsed_secs: u64) -> (name:
        String)
        ensures
            name@ == report_name(oracle.last, elapsed_secs, oracle.execs),
    {
        let mut name: String = "typehash_".to_owned();
        name.append(oracle.last.first.tostr().as_str());
        name.push('-');
        name.append(oracle.last.second.tostr().as_str());
        name.append("_pc");
        name.push(':');
        name.append(decimal(oracle.last.first_pc).as_str());
        name.push('-');
        name.append(decimal(oracle.last.second_pc).as_str());
        name.append("_time");
        name.push(':');
        name.append(decimal(elapsed_secs).as_str());
        name.append("_execs");
        name.push(':');
        name.append(decimal(oracle.execs as u64).as_str());
        assert(name@ == report_name(oracle.last, elapsed_secs, oracle.execs));
        name
    }
}

/// The name that stands for a report: its classes, its program counters, the seconds since
/// the start, and the number of runs.
pub open spec fn report_name(report: Report, elapsed_secs: u64, execs: usize) -> Seq<char> {
    let classes = ("typehash_"@ + report.first.label()).push('-') + report.second.label();
    let places = (classes + "_pc"@).push(':') + decimal_chars(report.first_pc as nat);
    let report_part = places.push('-') + decimal_chars(report.second_pc as nat);
    let timed = (report_part + "_time"@).push(':') + decimal_chars(elapsed_secs as nat);
    (timed + "_execs"@).push(':') + decimal_chars(execs as nat)
}

/// The bytes that a target is handed are twice as many as those of the input, and each is a
/// lower-case hexadecimal digit.
pub proof fn law_target_bytes_are_digits(bytes: Seq<u8>, i: int)
    requires
        0 <= i < hex_bytes(bytes).len(),
    ensures
        hex_bytes(bytes).len() == 2 * bytes.len(),
        48 <= hex_bytes(bytes)[i] <= 57 || 97 <= hex_bytes(bytes)[i] <= 102,
{
}

/// Different inputs are handed to a target as different bytes.
pub proof fn law_target_bytes_tell_inputs_apart(a: Seq<u8>, b: Seq<u8>)
    requires
        hex_bytes(a) == hex_bytes(b),
    ensures
        a == b,
{
    assert(hex_bytes(a).len() == 2 * a.len());
    assert(hex_bytes(b).len() == 2 * b.len());
    assert forall|i: int| 0 <= i < a.len() implies a[i] == b[i] by {
        assert(hex_bytes(a)[2 * i] == hex_digit(a[i] as int / 16));
        assert(hex_bytes(b)[2 * i] == hex_digit(b[i] as int / 16));
        assert(hex_bytes(a)[2 * i + 1] == hex_digit(a[i] as int % 16));
        assert(hex_bytes(b)[2 * i + 1] == hex_digit(b[i] as int % 16));
    }
    assert(a =~= b);
}

/// Texts that end in the same part are equal only if what stands before it is equal.
proof fn lemma_cut_end(a: Seq<char>, b: Seq<char>, end: Seq<char>)
    requires
        a + end == b + end,
    ensures
        a == b,
{
    assert((a + end).take(a.len() as int) == a);
    assert((b + end).take(b.len() as int) == b);
    assert((a + end).len() == (b + end).len());
}

/// A decimal holds no mark.
proof fn lemma_decimal_has_no_mark(n: nat, mark: char)
    requires
        mark == ':' || mark == '-' || mark == '_',
    ensures
        !decimal_chars(n).contains(mark),
{
    lemma_decimal_is_digits(n);
}

/// A class in words holds no dash.
proof fn lemma_label_has_no_dash(class: TypeHash)
    ensures
        !class.label().contains('-'),
{
    lemma_decimal_is_digits(class.opcode as nat);
    lemma_decimal_is_digits(class.t1 as nat);
    lemma_decimal_is_digits(class.t2 as nat);
}

/// Reports of classes that steps can have, at different times or numbers of runs, or of
/// different differences, have different names.
pub proof fn law_names_tell_reports_apart(
    a: Report,
    a_secs: u64,
    a_execs: usize,
    b: Report,
    b_secs: u64,
    b_execs: usize,
)
    requires
        a.first.is_step_class() && a.second.is_step_class(),
        b.first.is_step_class() && b.second.is_step_class(),
        report_name(a, a_secs, a_execs) == report_name(b, b_secs, b_execs),
    ensures
        a == b,
        a_secs == b_secs,
        a_execs == b_execs,
{
    let classes_a = ("typehash_"@ + a.first.label()).push('-') + a.second.label();
    let places_a = (classes_a + "_pc"@).push(':') + decimal_chars(a.first_pc as nat);
    let report_a = places_a.push('-') + decimal_chars(a.second_pc as nat);
    let timed_a = (report_a + "_time"@).push(':') + decimal_chars(a_secs as nat);
    let classes_b = ("typehash_"@ + b.first.label()).push('-') + b.second.label();
    let places_b = (classes_b + "_pc"@).push(':') + decimal_chars(b.first_pc as nat);
    let report_b = places_b.push('-') + decimal_chars(b.second_pc as nat);
    let timed_b = (report_b + "_time"@).push(':') + decimal_chars(b_secs as nat);

    lemma_decimal_has_no_mark(a_execs as nat, ':');
    lemma_decimal_has_no_mark(b_execs as nat, ':');
    lemma_split_at_mark(
        timed_a + "_execs"@,
        decimal_chars(a_execs as nat),
        ':',
        timed_b + "_execs"@,
        decimal_chars(b_execs as nat),
    );
    lemma_decimal_injective(a_execs as nat, b_execs as nat);
    lemma_cut_end(timed_a, timed_b, "_execs"@);

    lemma_decimal_has_no_mark(a_secs as nat, ':');
    lemma_decimal_has_no_mark(b_secs as nat, ':');
    lemma_split_at_mark(
        report_a + "_time"@,
        decimal_chars(a_secs as nat),
        ':',
        report_b + "_time"@,
        decimal_chars(b_secs as nat),
    );
    lemma_decimal_injective(a_secs as nat, b_secs as nat);
    lemma_cut_end(report_a, report_b, "_time"@);

    lemma_decimal_has_no_mark(a.second_pc as nat, '-');
    lemma_decimal_has_no_mark(b.second_pc as nat, '-');
    lemma_split_at_mark(
        places_a,
        decimal_chars(a.second_pc as nat),
        '-',
        places_b,
        decimal_chars(b.second_pc as nat),
    );
    lemma_decimal_injective(a.second_pc as nat, b.second_pc as nat);

    lemma_decimal_has_no_mark(a.first_pc as nat, ':');
    lemma_decimal_has_no_mark(b.first_pc as nat, ':');
    lemma_split_at_mark(
        classes_a + "_pc"@,
        decimal_chars(a.first_pc as nat),
        ':',
        classes_b + "_pc"@,
        decimal_chars(b.first_pc as nat),
    );
    lemma_decimal_injective(a.first_pc as nat, b.first_pc as nat);
    lemma_cut_end(classes_a, classes_b, "_pc"@);

    lemma_label_has_no_dash(a.second);
    lemma_label_has_no_dash(b.second);
    lemma_split_at_mark(
        "typehash_"@ + a.first.label(),
        a.second.label(),
        '-',
        "typehash_"@ + b.first.label(),
        b.second.label(),
    );
    law_label_tells_step_classes_apart(a.second, b.second);

    let n = "typehash_"@.len() as int;
    assert(("typehash_"@ + a.first.label()).skip(n) == a.first.label());
    assert(("typehash_"@ + b.first.label()).skip(n) == b.first.label());
    law_label_tells_step_classes_apart(a.first, b.first);
}

/// Each byte of an input is handed on as two digits: that of its sixteens and that of the
/// rest.
pub proof fn law_target_bytes(input: HexInput, target: Vec<u8>, i: int)
    requires
        call_ensures(HexInput::target_bytes, (&input,), target),
        2 * input.bytes@.len() <= isize::MAX,
        0 <= i < input.bytes@.len(),
    ensures
        target@.len() == 2 * input.bytes@.len(),
        ({
            let digits: Seq<u8> = seq![
                48,
                49,
                50,
                51,
                52,
                53,
                54,
                55,
                56,
                57,
                97,
                98,
                99,
                100,
                101,
                102,
            ];
            &&& target@[2 * i] == digits[input.bytes@[i] as int / 16]
            &&& target@[2 * i + 1] == digits[input.bytes@[i] as int % 16]
        }),
{
    assert((2 * i) / 2 == i);
    assert((2 * i + 1) / 2 == i);
}

/// The target bytes of two inputs, one after the other, are those of both together.
pub proof fn law_target_bytes_of_parts(a: Seq<u8>, b: Seq<u8>)
    ensures
        hex_bytes(a + b) == hex_bytes(a) + hex_bytes(b),
        hex_bytes(seq![]) == Seq::<u8>::empty(),
{
    assert forall|i: int| 0 <= i < 2 * (a.len() + b.len()) implies #[trigger] hex_bytes(a + b)[i]
        == (hex_bytes(a) + hex_bytes(b))[i] by {
        if i >= 2 * a.len() {
            let j = i - 2 * a.len();
            assert(i / 2 - a.len() == j / 2);
            assert(i % 2 == j % 2);
        }
    }
    assert(hex_bytes(a + b) =~= hex_bytes(a) + hex_bytes(b));
    assert(hex_bytes(seq![]) =~= Seq::<u8>::empty());
}

/// The name of a solution, part by part: the classes of the last report, its program counters,
/// the seconds since the start, and the number of runs, the first side before the second.
pub proof fn law_generated_name(
    input: HexInput,
    idx: usize,
    oracle: DiffOracle,
    elapsed_secs: u64,
    name: String,
)
    requires
        call_ensures(HexInput::generate_name, (&input, idx, &oracle, elapsed_secs), name),
    ensures
        name@ == "typehash_"@ + oracle.last.first.label() + "-"@ + oracle.last.second.label()
            + "_pc:"@ + decimal_chars(oracle.last.first_pc as nat) + "-"@ + decimal_chars(
            oracle.last.second_pc as nat,
        ) + "_time:"@ + decimal_chars(elapsed_secs as nat) + "_execs:"@ + decimal_chars(
            oracle.execs as nat,
        ),
{
    reveal_strlit("typehash_");
    reveal_strlit("-");
    reveal_strlit("_pc");
    reveal_strlit("_pc:");
    reveal_strlit("_time");
    reveal_strlit("_time:");
    reveal_strlit("_execs");
    reveal_strlit("_execs:");
    assert("_pc:"@ =~= "_pc"@.push(':'));
    assert("_time:"@ =~= "_time"@.push(':'));
    assert("_execs:"@ =~= "_execs"@.push(':'));
    assert("-"@ =~= seq!['-']);
    assert(name@ =~= "typehash_"@ + oracle.last.first.label() + "-"@ + oracle.last.second.label()
        + "_pc:"@ + decimal_chars(oracle.last.first_pc as nat) + "-"@ + decimal_chars(
        oracle.last.second_pc as nat,
    ) + "_time:"@ + decimal_chars(elapsed_secs as nat) + "_execs:"@ + decimal_chars(
        oracle.execs as nat,
    ));
}

/// An input is its bytes.
pub proof fn law_input_bytes(
    bytes: Vec<u8>,
    input: HexInput,
    shown: &[u8],
    len: usize,
)
    requires
        call_ensures(HexInput::new, (bytes,), input),
        call_ensures(HexInput::bytes, (&input,), shown),
        call_ensures(HexInput::len, (&input,), len),
    ensures
        input.bytes@ == bytes@,
        shown@ == bytes@,
        len == bytes@.len(),
{
}

} // verus!
