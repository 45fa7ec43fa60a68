//! Text helpers: decimal output, integer parsing, line splitting and trimming.

use vstd::prelude::*;
use vstd::utf8::*;
use vstd::string::*;

verus! {

/// The decimal digit of `d`, for `d < 10`.
pub open spec fn digit_char(d: nat) -> char {
    (48 + d) as char
}

/// `n` written in decimal, without leading zeros.
pub open spec fn decimal_chars(n: nat) -> Seq<char>
    decreases n,
{
    if n < 10 {
        seq![digit_char(n)]
    } else {
        decimal_chars(n / 10).push(digit_char(n % 10))
    }
}

/// A decimal is made of digits, at least one.
pub proof fn lemma_decimal_is_digits(n: nat)
    ensures
        decimal_chars(n).len() >= 1,
        forall|i: int| 0 <= i < decimal_chars(n).len() ==> '0' <= #[trigger] decimal_chars(n)[i] <= '9',
    decreases n,
{
    if n >= 10 {
        lemma_decimal_is_digits(n / 10);
    }
}

/// Different numbers have different decimals.
pub proof fn lemma_decimal_injective(m: nat, n: nat)
    requires
        decimal_chars(m) == decimal_chars(n),
    ensures
        m == n,
    decreases m,
{
    lemma_decimal_is_digits(m / 10);
    lemma_decimal_is_digits(n / 10);
    assert(decimal_chars(m).last() == decimal_chars(n).last());
    assert(decimal_chars(m).last() == digit_char(m % 10));
    assert(decimal_chars(n).last() == digit_char(n % 10));
    if m >= 10 && n >= 10 {
        assert(decimal_chars(m).drop_last() == decimal_chars(m / 10));
        assert(decimal_chars(n).drop_last() == decimal_chars(n / 10));
        lemma_decimal_injective(m / 10, n / 10);
    }
}

/// `n` in decimal.
pub(crate) fn decimal(n: u64) -> (s: String)
    ensures
        s@ == decimal_chars(n as nat),
    decreases n,
{
    let mut s: String = if n < 10 {
        String::new()
    } else {
        decimal(n / 10)
    };
    let digit: u8 = 48 + (n % 10) as u8;
    s.push(digit as char);
    assert(s@ == decimal_chars(n as nat));
    s
}

/// The value of `c` as a digit in `radix` (at most 36): `0-9`, then `a-z` or `A-Z`.
pub open spec fn digit_value(c: char, radix: nat) -> Option<nat> {
    let code = c as nat;
    let value = if 48 <= code <= 57 {
        (code - 48) as nat
    } else if 97 <= code <= 122 {
        (code - 87) as nat
    } else if 65 <= code <= 90 {
        (code - 55) as nat
    } else {
        radix
    };
    if value < radix {
        Some(value)
    } else {
        None
    }
}

/// The number that `digits` spells in `radix`; nothing where one of them is no digit.
pub open spec fn digits_value(digits: Seq<char>, radix: nat) -> Option<nat>
    decreases digits.len(),
{
    if digits.len() == 0 {
        Some(0nat)
    } else {
        match (digits_value(digits.drop_last(), radix), digit_value(digits.last(), radix)) {
            (Some(high), Some(low)) => Some(high * radix + low),
            _ => None,
        }
    }
}

/// The unsigned integer up to `max` that `s` spells in `radix`: an optional `+`, then at
/// least one digit, and nothing else.
pub open spec fn parse_unsigned(s: Seq<char>, radix: nat, max: nat) -> Option<nat> {
    let digits = if s.len() > 0 && s[0] == '+' {
        s.drop_first()
    } else {
        s
    };
    if digits.len() == 0 {
        None
    } else {
        match digits_value(digits, radix) {
            Some(value) if value <= max => Some(value),
            _ => None,
        }
    }
}

/// `u32::from_str_radix` in base 16: the contract claims that it reads an optional `+`
/// and then hexadecimal digits, and fails on every other text and on values that do not
/// fit.
#[verifier::external_body]
pub(crate) fn u32_from_hex(s: &str) -> (value: Option<u32>)
    ensures
        value is Some <==> parse_unsigned(s@, 16, u32::MAX as nat) is Some,
        value matches Some(v) ==> parse_unsigned(s@, 16, u32::MAX as nat) == Some(v as nat),
{
    u32::from_str_radix(s, 16).ok()
}

/// `str::parse` to a `u64`: the contract claims that it reads an optional `+` and then
/// decimal digits, and fails on every other text and on values that do not fit.
#[verifier::external_body]
pub(crate) fn u64_from_decimal(s: &str) -> (value: Option<u64>)
    ensures
        value is Some <==> parse_unsigned(s@, 10, u64::MAX as nat) is Some,
        value matches Some(v) ==> parse_unsigned(s@, 10, u64::MAX as nat) == Some(v as nat),
{
    s.parse::<u64>().ok()
}

/// `String::push` appends one character.
pub assume_specification[ String::push ](s: &mut String, c: char)
    ensures
        final(s)@ == old(s)@.push(c),
;

/// `lines` joined with a line feed between each two.
pub open spec fn join_lines(lines: Seq<Seq<char>>) -> Seq<char>
    decreases lines.len(),
{
    if lines.len() == 0 {
        seq![]
    } else if lines.len() == 1 {
        lines[0]
    } else {
        join_lines(lines.drop_last()).push('\n') + lines.last()
    }
}

/// The characters of each string.
pub open spec fn views(strings: Seq<String>) -> Seq<Seq<char>> {
    strings.map_values(|s: String| s@)
}

/// Cuts `text` at every line feed: the pieces hold none, and joined with line feeds they
/// give `text` back.
pub fn split_lines(text: &str) -> (lines: Vec<String>)
    ensures
        lines@.len() >= 1,
        join_lines(views(lines@)) == text@,
        forall|i: int| 0 <= i < lines@.len() ==> !(#[trigger] lines@[i]@.contains('\n')),
{
    let mut lines: Vec<String> = Vec::new();
    let mut current: String = String::new();
    for c in it: text.chars()
        invariant
            it.seq() == text@,
            !current@.contains('\n'),
            forall|i: int| 0 <= i < lines@.len() ==> !(#[trigger] lines@[i]@.contains('\n')),
            join_lines(views(lines@).push(current@)) == text@.take(it.index() as int),
    {
        let ghost before = views(lines@);
        let ghost line = current@;
        if c == '\n' {
            lines.push(current);
            current = String::new();
            proof {
                assert(views(lines@) == before.push(line));
                assert(before.push(line).push(current@).drop_last() == before.push(line));
                assert(text@.take(it.index() as int + 1) == text@.take(it.index() as int).push(
                    c,
                ));
                assert(join_lines(views(lines@).push(current@)) == text@.take(
                    it.index() as int + 1,
                ));
            }
        } else {
            current.push(c);
            proof {
                assert(before.push(line).drop_last() == before);
                assert(before.push(current@).drop_last() == before);
                assert(text@.take(it.index() as int + 1) == text@.take(it.index() as int).push(
                    c,
                ));
            }
        }
    }
    proof {
        assert(text@.take(text@.len() as int) == text@);
    }
    let ghost before = views(lines@);
    let ghost line = current@;
    lines.push(current);
    proof {
        assert(views(lines@) == before.push(line));
    }
    lines
}

/// Two texts that end in a mark and a part without that mark are equal only if what stands
/// before the mark and what follows it are equal.
pub proof fn lemma_split_at_mark(
    a: Seq<char>,
    b: Seq<char>,
    mark: char,
    c: Seq<char>,
    d: Seq<char>,
)
    requires
        a.push(mark) + b == c.push(mark) + d,
        !b.contains(mark),
        !d.contains(mark),
    ensures
        a == c,
        b == d,
{
    let left = a.push(mark) + b;
    let right = c.push(mark) + d;
    assert(left.len() == a.len() + 1 + b.len());
    assert(right.len() == c.len() + 1 + d.len());
    if a.len() < c.len() {
        assert(left[c.len() as int] == b[c.len() - a.len() - 1]);
        assert(right[c.len() as int] == mark);
    }
    if c.len() < a.len() {
        assert(right[a.len() as int] == d[a.len() - c.len() - 1]);
        assert(left[a.len() as int] == mark);
    }
    assert forall|i: int| 0 <= i < a.len() implies a[i] == c[i] by {
        assert(left[i] == a[i]);
        assert(right[i] == c[i]);
    }
    assert(a =~= c);
    assert forall|i: int| 0 <= i < b.len() implies b[i] == d[i] by {
        assert(left[a.len() + 1 + i] == b[i]);
        assert(right[c.len() + 1 + i] == d[i]);
    }
    assert(b =~= d);
}

/// There is only one way to cut a text at its line feeds: lines without line feeds that
/// join to the same text are the same lines.
pub proof fn law_lines_are_unique(a: Seq<Seq<char>>, b: Seq<Seq<char>>)
    requires
        a.len() >= 1,
        b.len() >= 1,
        forall|i: int| 0 <= i < a.len() ==> !(#[trigger] a[i].contains('\n')),
        forall|i: int| 0 <= i < b.len() ==> !(#[trigger] b[i].contains('\n')),
        join_lines(a) == join_lines(b),
    ensures
        a == b,
    decreases a.len(),
{
    assert(!a.last().contains('\n'));
    assert(!b.last().contains('\n'));
    if a.len() > 1 && b.len() > 1 {
        lemma_split_at_mark(
            join_lines(a.drop_last()),
            a.last(),
            '\n',
            join_lines(b.drop_last()),
            b.last(),
        );
        law_lines_are_unique(a.drop_last(), b.drop_last());
        assert(a == a.drop_last().push(a.last()));
        assert(b == b.drop_last().push(b.last()));
    } else if a.len() > 1 {
        assert(join_lines(a)[join_lines(a.drop_last()).len() as int] == '\n');
        assert(join_lines(b) == b.last());
    } else if b.len() > 1 {
        assert(join_lines(b)[join_lines(b.drop_last()).len() as int] == '\n');
        assert(join_lines(a) == a.last());
    } else {
        assert(a =~= b);
    }
}

/// `s` without the `0`s at its end.
pub open spec fn trim_zeros(s: Seq<char>) -> Seq<char>
    decreases s.len(),
{
    if s.len() > 0 && s.last() == '0' {
        trim_zeros(s.drop_last())
    } else {
        s
    }
}

/// The encoding of a text is the encoding of its parts.
pub proof fn lemma_encode_concat(a: Seq<char>, b: Seq<char>)
    ensures
        encode_utf8(a + b) == encode_utf8(a) + encode_utf8(b),
    decreases a.len(),
{
    if a.len() == 0 {
        assert(a + b == b);
        assert(encode_utf8(a) + encode_utf8(b) == encode_utf8(b));
    } else {
        assert((a + b).drop_first() == a.drop_first() + b);
        lemma_encode_concat(a.drop_first(), b);
        assert(encode_utf8(a + b) =~= encode_utf8(a) + encode_utf8(b));
    }
}

/// An encoding has at least as many bytes as the text has characters.
pub proof fn lemma_encode_len(s: Seq<char>)
    ensures
        encode_utf8(s).len() >= s.len(),
    decreases s.len(),
{
    if s.len() > 0 {
        lemma_encode_len(s.drop_first());
        assert(encode_scalar(s[0] as u32).len() >= 1);
    }
}

/// An encoding ends in the byte of `0` exactly where the text ends in the character.
proof fn lemma_encode_last(s: Seq<char>)
    requires
        s.len() > 0,
    ensures
        encode_utf8(s).len() > 0,
        encode_utf8(s).last() == 48 <==> s.last() == '0',
        s.last() == '0' ==> encode_utf8(s).drop_last() == encode_utf8(s.drop_last()),
{
    broadcast use {char_is_scalar, char_u32_cast};

    let c = s.last();
    let tail = seq![c];
    assert(s == s.drop_last() + tail);
    lemma_encode_concat(s.drop_last(), tail);
    assert(tail.drop_first() == Seq::<char>::empty());
    assert(encode_utf8(tail) == encode_scalar(c as u32) + encode_utf8(tail.drop_first()));
    assert(encode_utf8(tail) == encode_scalar(c as u32));
    let x = c as u32;
    assert(encode_scalar(x).len() > 0);
    assert(encode_scalar(x).last() == 48 <==> x == 48) by {
        assert(has_width_1_encoding(x) ==> (leading_byte_width_1(x) == 48 <==> x == 48))
            by (bit_vector);
        assert(last_continuation_byte(x) >= 128) by (bit_vector);
    }
    assert(encode_utf8(s).last() == encode_scalar(x).last());
    assert(x == 48 <==> c == '0') by {
        char_u32_cast(c, x);
        char_u32_cast('0', 48u32);
    }
    if c == '0' {
        assert(encode_scalar(x).len() == 1);
        assert(encode_utf8(s).drop_last() =~= encode_utf8(s.drop_last()));
    }
}

/// How many bytes of `s` are left when the `0`s at its end are cut off.
pub(crate) fn trimmed_len(s: &str) -> (len: usize)
    ensures
        len <= encode_utf8(s@).len(),
        encode_utf8(s@).take(len as int) == encode_utf8(trim_zeros(s@)),
{
    let bytes = s.as_bytes();
    let mut len: usize = bytes.len();
    let ghost mut rest = s@;
    assert(bytes@.take(len as int) == encode_utf8(rest));
    while len > 0 && bytes[len - 1] == 48
        invariant
            len <= bytes@.len(),
            bytes@ == encode_utf8(s@),
            bytes@.take(len as int) == encode_utf8(rest),
            trim_zeros(rest) == trim_zeros(s@),
        ensures
            len <= bytes@.len(),
            bytes@ == encode_utf8(s@),
            bytes@.take(len as int) == encode_utf8(rest),
            trim_zeros(rest) == trim_zeros(s@),
            len > 0 ==> bytes@[len - 1] != 48,
        decreases len,
    {
        proof {
            if rest.len() == 0 {
                assert(encode_utf8(rest).len() == 0);
            }
            lemma_encode_last(rest);
            assert(bytes@.take(len as int).drop_last() == bytes@.take(len - 1));
            rest = rest.drop_last();
        }
        len = len - 1;
    }
    proof {
        if rest.len() > 0 {
            lemma_encode_last(rest);
        }
    }
    len
}

/// A decimal is built digit by digit: a number below ten is its digit, and a digit put behind
/// a positive number makes ten times that number plus the digit.
pub proof fn law_decimal_by_digits(n: nat, d: nat)
    requires
        d < 10,
    ensures
        decimal_chars(d) == seq![seq!['0', '1', '2', '3', '4', '5', '6', '7', '8', '9'][d as int]],
        n > 0 ==> decimal_chars(10 * n + d) == decimal_chars(n).push(
            seq!['0', '1', '2', '3', '4', '5', '6', '7', '8', '9'][d as int],
        ),
{
    assert((10 * n + d) / 10 == n);
    assert((10 * n + d) % 10 == d);
}

/// A decimal reads back as its number, and one of more than one digit does not start with a
/// `0`.
pub proof fn law_decimal_reads_back(n: nat)
    ensures
        digits_value(decimal_chars(n), 10) == Some(n),
        n >= 10 ==> decimal_chars(n)[0] != '0',
        n > 0 ==> decimal_chars(n)[0] != '0',
    decreases n,
{
    lemma_decimal_is_digits(n);
    if n >= 10 {
        law_decimal_reads_back(n / 10);
        lemma_decimal_is_digits(n / 10);
        assert(decimal_chars(n).drop_last() == decimal_chars(n / 10));
        assert(decimal_chars(n)[0] == decimal_chars(n / 10)[0]);
    } else {
        assert(decimal_chars(n).drop_last() == Seq::<char>::empty());
        assert(digits_value(Seq::<char>::empty(), 10) == Some(0nat));
    }
}

/// Which characters are decimal and hexadecimal digits, and what they are worth.
pub proof fn law_digit_value(c: char)
    ensures
        digit_value(c, 10) == if '0' <= c <= '9' {
            Some((c as nat - '0' as nat) as nat)
        } else {
            None
        },
        digit_value(c, 16) == if '0' <= c <= '9' {
            Some((c as nat - '0' as nat) as nat)
        } else if 'a' <= c <= 'f' {
            Some((c as nat - 'a' as nat + 10) as nat)
        } else if 'A' <= c <= 'F' {
            Some((c as nat - 'A' as nat + 10) as nat)
        } else {
            None
        },
{
}

/// A character put behind a text makes a number exactly if the text is one and the character
/// is a digit: the radix times the number, plus the digit.
pub proof fn law_digits_value_grows(s: Seq<char>, c: char, radix: nat)
    ensures
        digits_value(seq![], radix) == Some(0nat),
        digits_value(s, radix) matches Some(high) ==> digits_value(s.push(c), radix) == match (
            digit_value(c, radix)
        ) {
            Some(low) => Some(high * radix + low),
            None => None,
        },
        digits_value(s, radix) is None ==> digits_value(s.push(c), radix) is None,
{
    assert(s.push(c).drop_last() == s);
}

/// A text spells an unsigned integer if it is made of digits, at least one, whose value is in
/// range. One `+` in front makes no difference, and a `+` alone is no integer.
pub proof fn law_parse_unsigned(s: Seq<char>, radix: nat, max: nat)
    ensures
        parse_unsigned(seq![], radix, max) is None,
        parse_unsigned(seq!['+'], radix, max) is None,
        s.len() > 0 && s[0] != '+' ==> parse_unsigned(seq!['+'] + s, radix, max)
            == parse_unsigned(s, radix, max),
        s.len() > 0 && s[0] != '+' ==> parse_unsigned(s, radix, max) == match digits_value(
            s,
            radix,
        ) {
            Some(value) => if value <= max {
                Some(value)
            } else {
                None
            },
            None => None,
        },
{
    assert((seq!['+'] + s).drop_first() == s);
    assert(seq!['+'].drop_first() == Seq::<char>::empty());
}

/// Lines are joined with one line feed between each two: one line is itself, and one more
/// line is put behind a line feed.
pub proof fn law_join_lines(lines: Seq<Seq<char>>, line: Seq<char>)
    ensures
        join_lines(seq![line]) == line,
        lines.len() >= 1 ==> join_lines(lines.push(line)) == join_lines(lines) + seq!['\n'] + line,
{
    assert(lines.push(line).drop_last() == lines);
}

/// Joining two lists of lines one after the other joins both with a line feed between.
proof fn lemma_join_both(a: Seq<Seq<char>>, b: Seq<Seq<char>>)
    requires
        a.len() >= 1,
        b.len() >= 1,
    ensures
        join_lines(a + b) == join_lines(a) + seq!['\n'] + join_lines(b),
    decreases b.len(),
{
    if b.len() == 1 {
        assert(a + b == a.push(b[0]));
        assert((a + b).drop_last() == a);
    } else {
        lemma_join_both(a, b.drop_last());
        assert((a + b).drop_last() == a + b.drop_last());
    }
}

/// A text without a line feed is one line.
pub proof fn law_split_of_one_line(text: &str, lines: Vec<String>)
    requires
        call_ensures(split_lines, (text,), lines),
        !text@.contains('\n'),
    ensures
        lines@.len() == 1,
        lines@[0]@ == text@,
{
    assert forall|i: int| 0 <= i < views(lines@).len() implies !(#[trigger] views(
        lines@,
    )[i].contains('\n')) by {
        assert(!lines@[i]@.contains('\n'));
    }
    law_lines_are_unique(views(lines@), seq![text@]);
    assert(views(lines@)[0] == lines@[0]@);
}

/// The lines of two texts with a line feed between them are the lines of the first and then
/// those of the second.
pub proof fn law_split_of_parts(
    first: &str,
    first_lines: Vec<String>,
    second: &str,
    second_lines: Vec<String>,
    text: &str,
    lines: Vec<String>,
)
    requires
        call_ensures(split_lines, (first,), first_lines),
        call_ensures(split_lines, (second,), second_lines),
        call_ensures(split_lines, (text,), lines),
        text@ == first@ + seq!['\n'] + second@,
    ensures
        lines@.len() == first_lines@.len() + second_lines@.len(),
        forall|i: int|
            0 <= i < first_lines@.len() ==> #[trigger] lines@[i]@ == first_lines@[i]@,
        forall|i: int|
            0 <= i < second_lines@.len() ==> #[trigger] second_lines@[i]@ == lines@[first_lines@.len()
                + i]@,
{
    let a = views(first_lines@);
    let b = views(second_lines@);
    let all = views(lines@);
    lemma_join_both(a, b);
    assert forall|i: int| 0 <= i < all.len() implies !(#[trigger] all[i].contains('\n')) by {
        assert(!lines@[i]@.contains('\n'));
    }
    assert forall|i: int| 0 <= i < (a + b).len() implies !(#[trigger] (a + b)[i].contains(
        '\n',
    )) by {
        if i < a.len() {
            assert(!first_lines@[i]@.contains('\n'));
        } else {
            assert(!second_lines@[i - a.len()]@.contains('\n'));
        }
    }
    law_lines_are_unique(all, a + b);
    assert forall|i: int| 0 <= i < first_lines@.len() implies #[trigger] lines@[i]@
        == first_lines@[i]@ by {
        assert(all[i] == (a + b)[i]);
    }
    assert forall|i: int| 0 <= i < second_lines@.len() implies #[trigger] second_lines@[i]@
        == lines@[first_lines@.len() + i]@ by {
        assert(all[first_lines@.len() + i] == (a + b)[first_lines@.len() + i]);
    }
}

/// Trimming cuts off `0`s at the end, all of them, and nothing else.
pub proof fn law_trim_zeros(s: Seq<char>)
    ensures
        trim_zeros(s).len() <= s.len(),
        trim_zeros(s) == s.take(trim_zeros(s).len() as int),
        forall|i: int| trim_zeros(s).len() <= i < s.len() ==> #[trigger] s[i] == '0',
        trim_zeros(s).len() > 0 ==> trim_zeros(s).last() != '0',
    decreases s.len(),
{
    if s.len() > 0 && s.last() == '0' {
        let shorter = s.drop_last();
        law_trim_zeros(shorter);
        assert(shorter.take(trim_zeros(s).len() as int) == s.take(trim_zeros(s).len() as int));
        assert forall|i: int| trim_zeros(s).len() <= i < s.len() implies #[trigger] s[i] == '0' by {
            if i < s.len() - 1 {
                assert(shorter[i] == '0');
            }
        }
    } else {
        assert(s.take(s.len() as int) == s);
    }
}

/// What a text views as.
pub proof fn law_views(strings: Seq<String>, i: int)
    requires
        0 <= i < strings.len(),
    ensures
        views(strings).len() == strings.len(),
        views(strings)[i] == strings[i]@,
{
}

/// A text that starts with a `+` spells no digits, so a second `+` is no sign.
pub proof fn law_one_sign(s: Seq<char>, radix: nat, max: nat)
    requires
        s.len() > 0,
        s[0] == '+',
    ensures
        digits_value(s, radix) is None,
        parse_unsigned(seq!['+'] + s, radix, max) is None,
    decreases s.len(),
{
    assert((seq!['+'] + s).drop_first() == s);
    if s.len() > 1 {
        law_one_sign(s.drop_last(), radix, max);
    }
}

} // verus!
