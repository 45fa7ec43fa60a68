//! The execution timeout on the command line.

use vstd::prelude::*;
use crate::error::Error;
use crate::text::{
    decimal_chars, digits_value, law_decimal_reads_back, law_parse_unsigned, lemma_decimal_is_digits,
    parse_unsigned, u64_from_decimal,
};

verus! {

/// Reads a timeout in milliseconds.
pub fn timeout_from_millis_str(time: &str) -> (millis: Result<u64, Error>)
    ensures
        match parse_unsigned(time@, 10, u64::MAX as nat) {
            Some(value) => millis matches Ok(m) && m as nat == value,
            None => millis matches Err(Error::Parse(text)) && text@ == time@,
        },
{
    match u64_from_decimal(time) {
        Some(millis) => Ok(millis),
        None => Err(Error::Parse(time.to_owned())),
    }
}

/// A timeout is read exactly if it is made of decimal digits, at least one and maybe behind a
/// `+`, and fits in 64 bits. Anything else is handed back in the error.
pub proof fn law_timeout(time: &str, millis: Result<u64, Error>)
    requires
        call_ensures(timeout_from_millis_str, (time,), millis),
    ensures
        time@.len() > 0 && time@[0] != '+' ==> (millis is Ok <==> (digits_value(
            time@,
            10,
        ) matches Some(value) && value <= 0xffff_ffff_ffff_ffff)),
        time@.len() > 0 && time@[0] != '+' && millis is Ok ==> digits_value(time@, 10) == Some(
            millis->Ok_0 as nat,
        ),
        time@.len() > 1 && time@[0] == '+' && time@[1] != '+' ==> (millis is Ok <==> (digits_value(
            time@.drop_first(),
            10,
        ) matches Some(value) && value <= 0xffff_ffff_ffff_ffff)),
        time@.len() > 1 && time@[0] == '+' && time@[1] != '+' && millis is Ok ==> digits_value(
            time@.drop_first(),
            10,
        ) == Some(millis->Ok_0 as nat),
        time@ == seq!['+'] || time@.len() == 0 ==> millis is Err,
        millis matches Err(e) ==> (e matches Error::Parse(text) && text@ == time@),
{
    law_parse_unsigned(time@, 10, u64::MAX as nat);
}

/// The number that a timeout stands for reads back from its decimal.
pub proof fn law_timeout_reads_decimals(time: &str, millis: Result<u64, Error>, n: u64)
    requires
        call_ensures(timeout_from_millis_str, (time,), millis),
        time@ == decimal_chars(n as nat),
    ensures
        millis == Ok::<u64, Error>(n),
{
    law_decimal_reads_back(n as nat);
    lemma_decimal_is_digits(n as nat);
}

} // verus!
