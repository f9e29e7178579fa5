//! The numbers that keys and sizes are written as on a command line.
//!
//! A key is a decimal numeral, or `0x` and a hexadecimal numeral; an
//! argument of one or two bytes is always read as decimal. A size is a
//! number of bytes, or decimal digits followed by `KB`, `MB` or `GB`, which
//! stand for 1024 bytes, 1024 of those, and 1024 of those again. A numeral
//! on its own may begin with a plus sign; digits in front of a unit may not.

use vstd::prelude::*;
use vstd::string::StringSliceAdditionalSpecFns;
use vstd::utf8::encode_utf8_valid_utf8;
use vstd::utf8::valid_utf8;

verus! {

/// Bytes in a kilobyte.
pub const KILOBYTE: u64 = 1024;

/// Bytes in a megabyte.
pub const MEGABYTE: u64 = 1024 * 1024;

/// Bytes in a gigabyte.
pub const GIGABYTE: u64 = 1024 * 1024 * 1024;

/// The plus sign.
pub const PLUS: u8 = 43;

/// The digit `0`.
pub const DIGIT_0: u8 = 48;

/// The digit `9`.
pub const DIGIT_9: u8 = 57;

/// The letter `A`.
pub const UPPER_A: u8 = 65;

/// The letter `B`, which ends every unit.
pub const UPPER_B: u8 = 66;

/// The letter `G` of gigabytes.
pub const UPPER_G: u8 = 71;

/// The letter `K` of kilobytes.
pub const UPPER_K: u8 = 75;

/// The letter `M` of megabytes.
pub const UPPER_M: u8 = 77;

/// The letter `Z`.
pub const UPPER_Z: u8 = 90;

/// The letter `a`.
pub const LOWER_A: u8 = 97;

/// The letter `x` of the hexadecimal mark.
pub const LOWER_X: u8 = 120;

/// The letter `z`.
pub const LOWER_Z: u8 = 122;

/// Why an argument is no number.
#[derive(Clone, Copy, Debug, PartialEq, Eq, Structural)]
pub enum ArgumentError {
    /// The argument is not written as the syntax asks.
    Malformed,
    /// The argument is written well and stands for more than fits.
    TooLarge,
}

/// What a byte is worth as a digit: `0` to `9` are worth zero to nine, and
/// a letter of either case ten and more, `a` first.
pub open spec fn digit_of(byte: u8) -> nat {
    if DIGIT_0 <= byte <= DIGIT_9 {
        (byte - DIGIT_0) as nat
    } else if LOWER_A <= byte <= LOWER_Z {
        (byte - LOWER_A + 10) as nat
    } else if UPPER_A <= byte <= UPPER_Z {
        (byte - UPPER_A + 10) as nat
    } else {
        36
    }
}

/// `bytes` are digits of the radix, one at least.
pub open spec fn is_digits(bytes: Seq<u8>, radix: nat) -> bool {
    &&& bytes.len() > 0
    &&& forall|at: int| 0 <= at < bytes.len() ==> digit_of(#[trigger] bytes[at]) < radix
}

/// The number that digits spell.
pub open spec fn value_of(digits: Seq<u8>, radix: nat) -> nat
    decreases digits.len(),
{
    if digits.len() == 0 {
        0
    } else {
        radix * value_of(digits.drop_last(), radix) + digit_of(digits.last())
    }
}

/// `bytes` without the plus sign that they may begin with.
pub open spec fn unsigned(bytes: Seq<u8>) -> Seq<u8> {
    if bytes.len() > 0 && bytes[0] == PLUS {
        bytes.skip(1)
    } else {
        bytes
    }
}

/// The number that a numeral stands for: digits after at most one plus sign.
pub open spec fn numeral(bytes: Seq<u8>, radix: nat) -> Option<nat> {
    if is_digits(unsigned(bytes), radix) {
        Some(value_of(unsigned(bytes), radix))
    } else {
        None
    }
}

/// The key is written in hexadecimal: it begins with `0x` and goes on.
pub open spec fn is_hexadecimal(bytes: Seq<u8>) -> bool {
    bytes.len() > 2 && bytes[0] == DIGIT_0 && bytes[1] == LOWER_X
}

/// The number that a key argument stands for.
pub open spec fn key_numeral(bytes: Seq<u8>) -> Option<nat> {
    if is_hexadecimal(bytes) {
        numeral(bytes.skip(2), 16)
    } else {
        numeral(bytes, 10)
    }
}

/// `bytes` are decimal digits followed by the letter `unit` and a `B`.
pub open spec fn has_unit(bytes: Seq<u8>, unit: u8) -> bool {
    &&& bytes.len() > 2
    &&& bytes[bytes.len() - 2] == unit
    &&& bytes[bytes.len() - 1] == UPPER_B
    &&& is_digits(bytes.take(bytes.len() - 2), 10)
}

/// The number of bytes that a size argument stands for.
pub open spec fn size_numeral(bytes: Seq<u8>) -> Option<nat> {
    let count = value_of(bytes.take(bytes.len() - 2), 10);
    if has_unit(bytes, UPPER_K) {
        Some(count * KILOBYTE as nat)
    } else if has_unit(bytes, UPPER_M) {
        Some(count * MEGABYTE as nat)
    } else if has_unit(bytes, UPPER_G) {
        Some(count * GIGABYTE as nat)
    } else {
        numeral(bytes, 10)
    }
}

/// What an argument comes to that stands for `number`, where `limit` is the
/// most that fits.
pub open spec fn within<T>(number: Option<nat>, limit: nat, fitting: T) -> Result<
    T,
    ArgumentError,
> {
    match number {
        None => Err(ArgumentError::Malformed),
        Some(value) => if value <= limit {
            Ok(fitting)
        } else {
            Err(ArgumentError::TooLarge)
        },
    }
}

/// The number that a longer run of digits spells is no less than the number
/// that its front spells.
pub proof fn lemma_value_grows(digits: Seq<u8>, front: int, radix: nat)
    requires
        0 <= front <= digits.len(),
        radix >= 1,
    ensures
        value_of(digits.take(front), radix) <= value_of(digits, radix),
    decreases digits.len() - front,
{
    if front < digits.len() {
        let longer = digits.take(front + 1);
        assert(longer.drop_last() == digits.take(front));
        assert(value_of(longer, radix) >= value_of(digits.take(front), radix)) by (nonlinear_arith)
            requires
                value_of(longer, radix) == radix * value_of(digits.take(front), radix) + digit_of(
                    longer.last(),
                ),
                radix >= 1,
        ;
        lemma_value_grows(digits, front + 1, radix);
    } else {
        assert(digits.take(front) == digits);
    }
}

fn digit(byte: u8) -> (worth: u8)
    ensures
        worth == digit_of(byte),
{
    if DIGIT_0 <= byte && byte <= DIGIT_9 {
        byte - DIGIT_0
    } else if LOWER_A <= byte && byte <= LOWER_Z {
        byte - LOWER_A + 10
    } else if UPPER_A <= byte && byte <= UPPER_Z {
        byte - UPPER_A + 10
    } else {
        36
    }
}

/// Whether the bytes `from..to` are digits of the radix, one at least.
fn are_digits(bytes: &[u8], from: usize, to: usize, radix: u8) -> (all: bool)
    requires
        from <= to <= bytes@.len(),
    ensures
        all == is_digits(bytes@.subrange(from as int, to as int), radix as nat),
{
    if from == to {
        return false;
    }
    let mut at: usize = from;
    while at < to
        invariant
            from <= at <= to <= bytes@.len(),
            forall|i: int| from <= i < at ==> digit_of(#[trigger] bytes@[i]) < radix,
        decreases to - at,
    {
        if digit(bytes[at]) >= radix {
            assert(bytes@.subrange(from as int, to as int)[at - from] == bytes@[at as int]);
            return false;
        }
        at = at + 1;
    }
    assert forall|i: int| 0 <= i < to - from implies digit_of(
        #[trigger] bytes@.subrange(from as int, to as int)[i],
    ) < radix by {
        assert(bytes@.subrange(from as int, to as int)[i] == bytes@[from + i]);
    }
    true
}

/// The number that the digits `from..to` spell, unless it is more than 128
/// bits hold.
fn spell(bytes: &[u8], from: usize, to: usize, radix: u8) -> (number: Option<u128>)
    requires
        from <= to <= bytes@.len(),
        1 <= radix <= 36,
    ensures
        match number {
            Some(value) => value == value_of(bytes@.subrange(from as int, to as int), radix as nat),
            None => value_of(bytes@.subrange(from as int, to as int), radix as nat) > u128::MAX,
        },
{
    let ghost digits = bytes@.subrange(from as int, to as int);
    let mut value: u128 = 0;
    let mut at: usize = from;
    while at < to
        invariant
            from <= at <= to <= bytes@.len(),
            1 <= radix <= 36,
            digits == bytes@.subrange(from as int, to as int),
            value == value_of(digits.take(at - from), radix as nat),
        decreases to - at,
    {
        let ghost front = digits.take(at - from);
        let ghost longer = digits.take(at - from + 1);
        proof {
            assert(longer.drop_last() == front);
            assert(longer.last() == bytes@[at as int]);
            lemma_value_grows(digits, at - from + 1, radix as nat);
        }
        let worth: u8 = digit(bytes[at]);
        let next: Option<u128> = match value.checked_mul(radix as u128) {
            Some(scaled) => scaled.checked_add(worth as u128),
            None => None,
        };
        match next {
            Some(sum) => {
                value = sum;
            },
            None => {
                assert(value_of(longer, radix as nat) > u128::MAX) by (nonlinear_arith)
                    requires
                        value_of(longer, radix as nat) == radix * value + worth,
                        value * radix > u128::MAX || value * radix + worth > u128::MAX,
                ;
                return None;
            },
        }
        at = at + 1;
    }
    assert(digits.take(to - from) == digits);
    Some(value)
}

/// Reads a numeral of the radix from the bytes `from..`.
fn read_numeral(bytes: &[u8], from: usize, radix: u8) -> (result: Result<u128, ArgumentError>)
    requires
        from <= bytes@.len(),
        1 <= radix <= 36,
    ensures
        result == within(
            numeral(bytes@.skip(from as int), radix as nat),
            u128::MAX as nat,
            value_of(unsigned(bytes@.skip(from as int)), radix as nat) as u128,
        ),
{
    let to: usize = bytes.len();
    let start: usize = if from < to && bytes[from] == PLUS {
        from + 1
    } else {
        from
    };
    assert(bytes@.subrange(start as int, to as int) == unsigned(bytes@.skip(from as int)));
    if !are_digits(bytes, start, to, radix) {
        return Err(ArgumentError::Malformed);
    }
    match spell(bytes, start, to, radix) {
        Some(value) => Ok(value),
        None => Err(ArgumentError::TooLarge),
    }
}

/// Reads a key: `0x` and a hexadecimal numeral where the argument has more
/// than two bytes and begins so, a decimal numeral otherwise.
pub fn string_to_u128(lumpid_str: &str) -> (result: Result<u128, ArgumentError>)
    ensures
        result == within(
            key_numeral(lumpid_str.spec_bytes()),
            u128::MAX as nat,
            key_numeral(lumpid_str.spec_bytes()).unwrap() as u128,
        ),
{
    key_from_bytes(lumpid_str.as_bytes())
}

/// Reads a key from the bytes of its argument.
pub fn key_from_bytes(bytes: &[u8]) -> (result: Result<u128, ArgumentError>)
    ensures
        result == within(
            key_numeral(bytes@),
            u128::MAX as nat,
            key_numeral(bytes@).unwrap() as u128,
        ),
{
    if bytes.len() > 2 && bytes[0] == DIGIT_0 && bytes[1] == LOWER_X {
        read_numeral(bytes, 2, 16)
    } else {
        assert(bytes@.skip(0) == bytes@);
        read_numeral(bytes, 0, 10)
    }
}

/// The digits in front of a unit, where the argument ends in the unit.
fn count_before_unit(bytes: &[u8], unit: u8) -> (count: Option<Option<u128>>)
    ensures
        count is Some <==> has_unit(bytes@, unit),
        count matches Some(Some(value)) ==> value == value_of(
            bytes@.take(bytes@.len() - 2),
            10,
        ),
        count matches Some(None) ==> value_of(bytes@.take(bytes@.len() - 2), 10) > u128::MAX,
{
    let length: usize = bytes.len();
    if length > 2 && bytes[length - 2] == unit && bytes[length - 1] == UPPER_B {
        assert(bytes@.subrange(0, length - 2) == bytes@.take(length - 2));
        if are_digits(bytes, 0, length - 2, 10) {
            Some(spell(bytes, 0, length - 2, 10))
        } else {
            None
        }
    } else {
        None
    }
}

/// `count` units of `unit` bytes, where that fits.
fn scale(count: Option<u128>, unit: u64) -> (result: Result<u64, ArgumentError>)
    requires
        unit > 0,
    ensures
        count matches Some(value) ==> result == within(
            Some((value * unit) as nat),
            u64::MAX as nat,
            (value * unit) as u64,
        ),
        count is None ==> result == Err::<u64, ArgumentError>(ArgumentError::TooLarge),
{
    match count {
        Some(value) => {
            if value > (u64::MAX / unit) as u128 {
                assert(value * unit > u64::MAX) by (nonlinear_arith)
                    requires
                        value > u64::MAX / unit,
                        unit > 0,
                ;
                Err(ArgumentError::TooLarge)
            } else {
                assert(value * unit <= u64::MAX) by (nonlinear_arith)
                    requires
                        value <= u64::MAX / unit,
                        unit > 0,
                ;
                Ok((value as u64) * unit)
            }
        },
        None => Err(ArgumentError::TooLarge),
    }
}

/// Reads a size in bytes: decimal digits and `KB`, `MB` or `GB`, or a
/// decimal numeral alone.
pub fn size_to_bytes(input: &str) -> (result: Result<u64, ArgumentError>)
    ensures
        result == within(
            size_numeral(input.spec_bytes()),
            u64::MAX as nat,
            size_numeral(input.spec_bytes()).unwrap() as u64,
        ),
{
    let bytes: &[u8] = input.as_bytes();
    match count_before_unit(bytes, UPPER_K) {
        Some(kilobytes) => {
            return scale(kilobytes, KILOBYTE);
        },
        None => {},
    }
    match count_before_unit(bytes, UPPER_M) {
        Some(megabytes) => {
            return scale(megabytes, MEGABYTE);
        },
        None => {},
    }
    match count_before_unit(bytes, UPPER_G) {
        Some(gigabytes) => {
            return scale(gigabytes, GIGABYTE);
        },
        None => {},
    }
    assert(bytes@.skip(0) == bytes@);
    match read_numeral(bytes, 0, 10) {
        Ok(value) => {
            if value > u64::MAX as u128 {
                Err(ArgumentError::TooLarge)
            } else {
                Ok(value as u64)
            }
        },
        Err(error) => Err(error),
    }
}

/// `std::str::from_utf8`, asked only whether it succeeds: it does exactly
/// on the bytes that are well-formed UTF-8.
#[verifier::external_body]
fn is_utf8(bytes: &[u8]) -> (valid: bool)
    ensures
        valid == valid_utf8(bytes@),
{
    std::str::from_utf8(bytes).is_ok()
}

/// Whether the bytes of `data` are well-formed UTF-8. Those of a string
/// always are.
pub fn is_valid_characters(data: &str) -> (valid: bool)
    ensures
        valid == valid_utf8(data.spec_bytes()),
        valid,
{
    proof {
        encode_utf8_valid_utf8(data@);
    }
    is_utf8(data.as_bytes())
}

} // verus!
