//! Reading numbers from the command line.

use vstd::prelude::*;
use vstd::utf8::encode_utf8;
use crate::error::PeError;

verus! {

/// Whether the byte is one of the digits `0` to `9`.
pub open spec fn is_digit(b: u8) -> bool {
    0x30 <= b <= 0x39
}

/// The number that the digits spell in base ten.
pub open spec fn decimal_value(digits: Seq<u8>) -> nat
    decreases digits.len(),
{
    if digits.len() == 0 {
        0
    } else {
        10 * decimal_value(digits.drop_last()) + (digits.last() - 0x30) as nat
    }
}

/// The number that the bytes spell, if they spell one that fits 32 bits:
/// one digit or more, nothing but digits.
pub open spec fn number_of(bytes: Seq<u8>) -> Option<u32> {
    if bytes.len() > 0 && (forall|i: int| 0 <= i < bytes.len() ==> is_digit(#[trigger] bytes[i]))
        && decimal_value(bytes) <= u32::MAX {
        Some(decimal_value(bytes) as u32)
    } else {
        None
    }
}

/// The number that a text spells, if it spells one.
pub open spec fn number_of_text(text: Seq<char>) -> Option<u32> {
    number_of(encode_utf8(text))
}

/// More digits spell no smaller a number.
pub proof fn lemma_decimal_value_grows(digits: Seq<u8>, n: int)
    requires
        0 <= n <= digits.len(),
        forall|i: int| 0 <= i < digits.len() ==> is_digit(#[trigger] digits[i]),
    ensures
        decimal_value(digits.take(n)) <= decimal_value(digits),
    decreases digits.len() - n,
{
    if n < digits.len() {
        lemma_decimal_value_grows(digits, n + 1);
        assert(digits.take(n + 1).drop_last() =~= digits.take(n));
        assert(digits.take(n + 1).last() == digits[n]);
    } else {
        assert(digits.take(n) =~= digits);
    }
}

/// Reads the number that the bytes spell.
pub fn parse_number(bytes: &[u8]) -> (r: Option<u32>)
    ensures
        r == number_of(bytes@),
{
    if bytes.len() == 0 {
        return None;
    }
    let mut value: u64 = 0;
    let mut i: usize = 0;
    while i < bytes.len()
        invariant
            i <= bytes.len(),
            forall|j: int| 0 <= j < i ==> is_digit(#[trigger] bytes@[j]),
            value == decimal_value(bytes@.take(i as int)),
            value <= u32::MAX,
        decreases bytes.len() - i,
    {
        let b = bytes[i];
        if b < 0x30 || b > 0x39 {
            return None;
        }
        proof {
            assert(bytes@.take(i + 1).drop_last() =~= bytes@.take(i as int));
            assert(bytes@.take(i + 1).last() == b);
        }
        value = 10 * value + (b - 0x30) as u64;
        i = i + 1;
        if value > 0xFFFF_FFFF {
            proof {
                if forall|j: int| 0 <= j < bytes@.len() ==> is_digit(#[trigger] bytes@[j]) {
                    lemma_decimal_value_grows(bytes@, i as int);
                }
            }
            return None;
        }
    }
    proof {
        assert(bytes@.take(i as int) =~= bytes@);
    }
    Some(value as u32)
}

/// Reads the argument at place `n` as a number. An argument that spells no
/// number that fits 32 bits is refused, and the failure names its place.
pub fn read_arg(args: &[String], n: usize) -> (r: Result<u32, PeError>)
    requires
        n < args.len(),
    ensures
        match number_of_text(args[n as int]@) {
            Some(value) => r == Ok::<u32, PeError>(value),
            None => r == Err::<u32, PeError>(PeError::InvalidArgument { index: n }),
        },
{
    match parse_number(args[n].as_str().as_bytes()) {
        Some(value) => Ok(value),
        None => Err(PeError::InvalidArgument { index: n }),
    }
}

} // verus!
