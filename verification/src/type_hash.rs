//! Type hashes: the class of an executed instruction.

use vstd::prelude::*;
use vstd::string::*;
use crate::text::decimal;
use crate::text::decimal_chars;

verus! {

/// The class of an executed instruction: its opcode, the types of the two topmost stack
/// items that have one (0 where there is none), and whether the memory was in use.
#[derive(Clone, Copy, PartialEq, Eq, Structural, Hash, Debug)]
pub struct TypeHash {
    pub mem_flag: bool,
    pub t1: u8,
    pub t2: u8,
    pub opcode: u8,
}

impl Default for TypeHash {
    fn default() -> (hash: TypeHash)
        ensures
            hash == (TypeHash { mem_flag: false, t1: 0, t2: 0, opcode: 0 }),
    {
        TypeHash { mem_flag: false, t1: 0, t2: 0, opcode: 0 }
    }
}

/// The number of bits of a fresh history.
pub const HISTORY_LEN: usize = 65535;

/// The number of bits that a history needs for the classes that steps can have.
pub const STEP_CLASSES_LEN: usize = 44544;

/// Whether `t` stands for a type, or for none.
pub open spec fn is_type(t: u8) -> bool {
    t == 0 || t == 1 || t == 2 || t == 3 || t == 5
}

impl TypeHash {
    /// Whether some step can have this class: both types are types, and the first is
    /// given before the second.
    pub open spec fn is_step_class(self) -> bool {
        &&& is_type(self.t1)
        &&& is_type(self.t2)
        &&& self.t1 == 0 ==> self.t2 == 0
    }

    /// The first byte of the packed form: the memory flag in the highest bit, then four
    /// bits of the first type, then three bits of the second.
    pub open spec fn packed_types(self) -> int {
        (if self.mem_flag {
            128int
        } else {
            0
        }) + (self.t1 as int % 16) * 8 + self.t2 as int % 8
    }

    /// The packed form as a number: the packed types, then the opcode.
    pub open spec fn packed_index(self) -> int {
        self.packed_types() * 256 + self.opcode as int
    }

    /// The packed form: two bytes, most significant bit first.
    pub fn pack(&self) -> (packed: [u8; 2])
        ensures
            packed@ == seq![self.packed_types() as u8, self.opcode],
            0 <= self.packed_types() < 256,
    {
        let flag: u8 = if self.mem_flag {
            1
        } else {
            0
        };
        let t1: u8 = self.t1;
        let t2: u8 = self.t2;
        let types: u8 = (flag << 7) | ((t1 & 0x0f) << 3) | (t2 & 0x07);
        proof {
            assert(((flag << 7) | ((t1 & 0x0f) << 3) | (t2 & 0x07)) == flag * 128 + (t1 % 16) * 8
                + t2 % 8) by (bit_vector)
                requires
                    flag <= 1,
            ;
        }
        [types, self.opcode]
    }

    /// The place of the class in a history.
    pub fn index(&self) -> (index: usize)
        ensures
            index == self.packed_index(),
            index <= HISTORY_LEN,
    {
        let packed = self.pack();
        let high: u16 = packed[0] as u16;
        let low: u16 = packed[1] as u16;
        assert(((high << 8) | low) == high * 256 + low) by (bit_vector)
            requires
                high < 256,
                low < 256,
        ;
        ((high << 8) | low) as usize
    }

    /// The class in words: the opcode, an underscore, the types that are given, and a `6`
    /// for memory in use.
    pub open spec fn label(self) -> Seq<char> {
        decimal_chars(self.opcode as nat) + seq!['_'] + (if self.t1 != 0 {
            decimal_chars(self.t1 as nat)
        } else {
            seq![]
        }) + (if self.t2 != 0 {
            decimal_chars(self.t2 as nat)
        } else {
            seq![]
        }) + (if self.mem_flag {
            seq!['6']
        } else {
            seq![]
        })
    }

    /// The class in words.
    pub fn tostr(&self) -> (label: String)
        ensures
            label@ == self.label(),
    {
        let mut s: String = decimal(self.opcode as u64);
        s.push('_');
        if self.t1 != 0 {
            s.append(decimal(self.t1 as u64).as_str());
        }
        if self.t2 != 0 {
            s.append(decimal(self.t2 as u64).as_str());
        }
        if self.mem_flag {
            s.push('6');
        }
        assert(s@ == self.label());
        s
    }
}

impl TypeHash {
    /// What follows the underscore in the words of a step's class.
    proof fn lemma_tail(self, n: int)
        requires
            self.is_step_class(),
            n == decimal_chars(self.opcode as nat).len() + 1,
        ensures
            self.label().skip(n) == (if self.t1 != 0 {
                seq![crate::text::digit_char(self.t1 as nat)]
            } else {
                seq![]
            }) + (if self.t2 != 0 {
                seq![crate::text::digit_char(self.t2 as nat)]
            } else {
                seq![]
            }) + (if self.mem_flag {
                seq!['6']
            } else {
                seq![]
            }),
    {
        assert(self.label().skip(n) =~= (if self.t1 != 0 {
            seq![crate::text::digit_char(self.t1 as nat)]
        } else {
            seq![]
        }) + (if self.t2 != 0 {
            seq![crate::text::digit_char(self.t2 as nat)]
        } else {
            seq![]
        }) + (if self.mem_flag {
            seq!['6']
        } else {
            seq![]
        }));
    }
}

/// Every class that a step can have lies within the part of a history that is needed for
/// them.
pub proof fn law_step_class_in_history(hash: TypeHash)
    requires
        hash.is_step_class(),
    ensures
        0 <= hash.packed_index() < STEP_CLASSES_LEN,
        STEP_CLASSES_LEN <= HISTORY_LEN,
{
}

/// Different classes whose types fit their four and three bits, as those of steps do, lie
/// at different places of a history.
pub proof fn law_index_tells_classes_apart(a: TypeHash, b: TypeHash)
    requires
        a.t1 < 16 && a.t2 < 8,
        b.t1 < 16 && b.t2 < 8,
        a.packed_index() == b.packed_index(),
    ensures
        a == b,
{
}

/// Different classes that steps can have are different in words.
pub proof fn law_label_tells_step_classes_apart(a: TypeHash, b: TypeHash)
    requires
        a.is_step_class(),
        b.is_step_class(),
        a.label() == b.label(),
    ensures
        a == b,
{
    let head_a = decimal_chars(a.opcode as nat);
    let head_b = decimal_chars(b.opcode as nat);
    crate::text::lemma_decimal_is_digits(a.opcode as nat);
    crate::text::lemma_decimal_is_digits(b.opcode as nat);
    // The underscore is the first character that is no digit.
    assert(a.label()[head_a.len() as int] == '_');
    assert(b.label()[head_b.len() as int] == '_');
    assert(forall|i: int| 0 <= i < head_a.len() ==> a.label()[i] == head_a[i]);
    assert(forall|i: int| 0 <= i < head_b.len() ==> b.label()[i] == head_b[i]);
    assert(head_a.len() == head_b.len());
    assert(head_a =~= head_b);
    crate::text::lemma_decimal_injective(a.opcode as nat, b.opcode as nat);
    let n = head_a.len() as int + 1;
    let tail_a = a.label().skip(n);
    let tail_b = b.label().skip(n);
    assert(tail_a == tail_b);
    reveal_with_fuel(decimal_chars, 2);
    a.lemma_tail(n);
    b.lemma_tail(n);
    if a.mem_flag != b.mem_flag {
        assert(tail_a.last() == tail_b.last());
    }
    assert(tail_a[0] == tail_b[0]);
    assert(tail_a[1] == tail_b[1]);
}

/// The packed form: the memory flag weighs 128, the first type eight times its value modulo
/// 16, the second type its value modulo 8. The opcode is the second byte.
pub proof fn law_pack(hash: TypeHash, packed: [u8; 2])
    requires
        call_ensures(TypeHash::pack, (&hash,), packed),
    ensures
        packed@.len() == 2,
        packed@[0] >= 128 <==> hash.mem_flag,
        (packed@[0] % 128) / 8 == hash.t1 % 16,
        packed@[0] % 8 == hash.t2 % 8,
        packed@[1] == hash.opcode,
{
}

/// The place of a class is its packed form as a number, the first byte being the high one.
pub proof fn law_index_is_packed_form(hash: TypeHash, packed: [u8; 2], index: usize)
    requires
        call_ensures(TypeHash::pack, (&hash,), packed),
        call_ensures(TypeHash::index, (&hash,), index),
    ensures
        index == 256 * packed@[0] + packed@[1],
{
}

/// The place of a class by its fields, within a fresh history or just behind it.
pub proof fn law_packed_index(hash: TypeHash)
    ensures
        hash.packed_index() == (if hash.mem_flag {
            32768int
        } else {
            0
        }) + 2048 * (hash.t1 as int % 16) + 256 * (hash.t2 as int % 8) + hash.opcode,
        HISTORY_LEN == 65535,
        STEP_CLASSES_LEN == 44544,
{
}

/// The words of a class: its opcode in decimal, an underscore, each type that is not 0 in
/// decimal, and a `6` if the memory was in use.
pub proof fn law_label(hash: TypeHash, label: String)
    requires
        call_ensures(TypeHash::tostr, (&hash,), label),
    ensures
        hash.t1 == 0 && hash.t2 == 0 && !hash.mem_flag ==> label@ == decimal_chars(
            hash.opcode as nat,
        ).push('_'),
        hash.t1 != 0 && hash.t2 == 0 && !hash.mem_flag ==> label@ == decimal_chars(
            hash.opcode as nat,
        ).push('_') + decimal_chars(hash.t1 as nat),
        hash.t1 == 0 && hash.t2 != 0 && !hash.mem_flag ==> label@ == decimal_chars(
            hash.opcode as nat,
        ).push('_') + decimal_chars(hash.t2 as nat),
        hash.t1 != 0 && hash.t2 != 0 && !hash.mem_flag ==> label@ == decimal_chars(
            hash.opcode as nat,
        ).push('_') + decimal_chars(hash.t1 as nat) + decimal_chars(hash.t2 as nat),
{
}

/// Memory in use puts a `6` behind the words of a class, and changes nothing else of them.
pub proof fn law_label_of_memory(with: TypeHash, with_label: String, without: TypeHash, label: String)
    requires
        call_ensures(TypeHash::tostr, (&with,), with_label),
        call_ensures(TypeHash::tostr, (&without,), label),
        with.mem_flag && !without.mem_flag,
        with.t1 == without.t1 && with.t2 == without.t2 && with.opcode == without.opcode,
    ensures
        with_label@ == label@.push('6'),
{
}

/// Which classes steps can have: each type is 0, 1, 2, 3 or 5, and the second is 0 where the
/// first is.
pub proof fn law_is_step_class(hash: TypeHash)
    ensures
        hash.is_step_class() <==> {
            &&& hash.t1 <= 5 && hash.t1 != 4
            &&& hash.t2 <= 5 && hash.t2 != 4
            &&& hash.t1 == 0 ==> hash.t2 == 0
        },
{
}

} // verus!
