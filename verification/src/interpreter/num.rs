//! Unsigned integers written as digits in a radix.

use vstd::prelude::*;

verus! {

/// Why a run of digits is no 64-bit number.
#[derive(Debug, Clone, Copy, PartialEq, Eq, Structural)]
pub enum ParseIntError {
    /// There were no digits at all.
    Empty,
    /// The byte at this index is no digit of the radix.
    InvalidDigit(usize),
    /// The digits stand for a number above `u64::MAX`.
    Overflow,
}

/// What the byte counts for as a digit: `0`-`9`, then `a`-`z` or `A`-`Z` for ten to
/// thirty-five. Any other byte gives 36, which is no digit of any radix.
pub open spec fn digit(c: u8) -> nat {
    if '0' as u8 <= c <= '9' as u8 {
        (c - '0' as u8) as nat
    } else if 'a' as u8 <= c <= 'z' as u8 {
        (c - 'a' as u8 + 10) as nat
    } else if 'A' as u8 <= c <= 'Z' as u8 {
        (c - 'A' as u8 + 10) as nat
    } else {
        36
    }
}

/// The byte is a digit of the radix.
pub open spec fn is_digit(c: u8, radix: nat) -> bool {
    digit(c) < radix
}

/// Every byte is a digit of the radix.
pub open spec fn all_digits(digits: Seq<u8>, radix: nat) -> bool {
    forall|i: int| 0 <= i < digits.len() ==> is_digit(#[trigger] digits[i], radix)
}

/// The number that the digits stand for, most significant digit first.
pub open spec fn value_of(digits: Seq<u8>, radix: nat) -> nat
    decreases digits.len(),
{
    if digits.len() == 0 {
        0
    } else {
        value_of(digits.drop_last(), radix) * radix + digit(digits.last())
    }
}

/// Where the leading run of digits ends, looking from `from` on: the index of the first
/// byte that is no digit of the radix, or the length if there is none.
pub open spec fn run_end(bytes: Seq<u8>, radix: nat, from: int) -> int
    decreases bytes.len() - from,
{
    if 0 <= from < bytes.len() && is_digit(bytes[from], radix) {
        run_end(bytes, radix, from + 1)
    } else {
        from
    }
}

/// The 64-bit number that the bytes stand for, or the first thing that is wrong with
/// them, reading from the left.
pub open spec fn parsed(digits: Seq<u8>, radix: nat) -> Result<u64, ParseIntError> {
    let run = run_end(digits, radix, 0);
    if digits.len() == 0 {
        Err(ParseIntError::Empty)
    } else if value_of(digits.take(run), radix) > u64::MAX {
        Err(ParseIntError::Overflow)
    } else if run < digits.len() {
        Err(ParseIntError::InvalidDigit(run as usize))
    } else {
        Ok(value_of(digits, radix) as u64)
    }
}

/// The digit that stands for `d`, in lower case.
pub open spec fn digit_byte(d: nat) -> u8 {
    if d < 10 {
        ('0' as u8 + d) as u8
    } else {
        ('a' as u8 + d - 10) as u8
    }
}

/// The shortest way to write `n` in the radix: no leading zero, but `0` for zero.
pub open spec fn digits_of(n: nat, radix: nat) -> Seq<u8>
    decreases n,
{
    if radix < 2 || n < radix {
        seq![digit_byte(n)]
    } else {
        proof {
            assert(n / radix < n) by (nonlinear_arith)
                requires
                    n >= radix,
                    radix >= 2,
            ;
        }
        digits_of(n / radix, radix).push(digit_byte(n % radix))
    }
}

/// Sixteen to the power `n`.
pub open spec fn pow16(n: nat) -> nat
    decreases n,
{
    if n == 0 {
        1
    } else {
        16 * pow16((n - 1) as nat)
    }
}

/// From `from` up to `run_end` every byte is a digit, and the byte at `run_end` is none.
pub proof fn lemma_run_end(bytes: Seq<u8>, radix: nat, from: int)
    requires
        0 <= from <= bytes.len(),
    ensures
        from <= run_end(bytes, radix, from) <= bytes.len(),
        forall|i: int| from <= i < run_end(bytes, radix, from) ==> is_digit(bytes[i], radix),
        run_end(bytes, radix, from) < bytes.len() ==> !is_digit(
            bytes[run_end(bytes, radix, from)],
            radix,
        ),
    decreases bytes.len() - from,
{
    if from < bytes.len() && is_digit(bytes[from], radix) {
        lemma_run_end(bytes, radix, from + 1);
    }
}

/// `run_end` is the only index with the two properties of `lemma_run_end`.
pub proof fn lemma_run_end_is(bytes: Seq<u8>, radix: nat, from: int, end: int)
    requires
        0 <= from <= end <= bytes.len(),
        forall|i: int| from <= i < end ==> is_digit(bytes[i], radix),
        end < bytes.len() ==> !is_digit(bytes[end], radix),
    ensures
        run_end(bytes, radix, from) == end,
    decreases end - from,
{
    if from < end {
        lemma_run_end_is(bytes, radix, from + 1, end);
    }
}

/// Appending a digit multiplies by the radix and adds the digit.
pub proof fn lemma_value_of_push(digits: Seq<u8>, radix: nat, c: u8)
    ensures
        value_of(digits.push(c), radix) == value_of(digits, radix) * radix + digit(c),
{
    assert(digits.push(c).drop_last() =~= digits);
}

/// A longer run of digits stands for no smaller number.
pub proof fn lemma_value_of_grows(digits: Seq<u8>, radix: nat, shorter: int, longer: int)
    requires
        radix >= 1,
        0 <= shorter <= longer <= digits.len(),
    ensures
        value_of(digits.take(shorter), radix) <= value_of(digits.take(longer), radix),
    decreases longer - shorter,
{
    if shorter < longer {
        lemma_value_of_grows(digits, radix, shorter, longer - 1);
        let before = digits.take(longer - 1);
        assert(digits.take(longer).drop_last() =~= before);
        let v = value_of(before, radix);
        assert(v <= v * radix) by (nonlinear_arith)
            requires
                radix >= 1,
                v >= 0,
        ;
    }
}

/// Up to sixteen digits of a radix up to sixteen stay below two to the sixty-fourth.
pub proof fn lemma_value_of_bound(digits: Seq<u8>, radix: nat)
    requires
        2 <= radix <= 16,
        all_digits(digits, radix),
    ensures
        value_of(digits, radix) < pow16(digits.len()),
    decreases digits.len(),
{
    if digits.len() > 0 {
        let before = digits.drop_last();
        lemma_value_of_bound(before, radix);
        let v = value_of(before, radix);
        let d = digit(digits.last());
        let p = pow16(before.len());
        assert(v * radix + d < 16 * p) by (nonlinear_arith)
            requires
                v < p,
                d < radix,
                radix <= 16,
        ;
    }
}

/// Sixteen to the sixteenth is two to the sixty-fourth, and smaller powers are smaller.
pub proof fn lemma_pow16(n: nat)
    requires
        n <= 16,
    ensures
        pow16(n) <= 0x1_0000_0000_0000_0000,
    decreases 16 - n,
{
    if n < 16 {
        lemma_pow16(n + 1);
    } else {
        reveal_with_fuel(pow16, 17);
    }
}

/// Writing a number in a radix and reading it back gives the number: the digits are
/// digits of the radix, at least one, and stand for `n`.
pub proof fn lemma_digits_round_trip(n: nat, radix: nat)
    requires
        2 <= radix <= 36,
    ensures
        digits_of(n, radix).len() >= 1,
        all_digits(digits_of(n, radix), radix),
        value_of(digits_of(n, radix), radix) == n,
    decreases n,
{
    if n < radix {
        lemma_value_of_push(Seq::<u8>::empty(), radix, digit_byte(n));
        let v = value_of(Seq::<u8>::empty(), radix);
        assert(v * radix == 0) by (nonlinear_arith)
            requires
                v == 0,
        ;
    } else {
        let rest = digits_of(n / radix, radix);
        let c = digit_byte(n % radix);
        assert(n / radix < n) by (nonlinear_arith)
            requires
                n >= radix,
                radix >= 2,
        ;
        lemma_digits_round_trip(n / radix, radix);
        lemma_value_of_push(rest, radix, c);
        assert((n / radix) * radix + n % radix == n) by (nonlinear_arith)
            requires
                radix >= 2,
        ;
        assert forall|i: int| 0 <= i < rest.push(c).len() implies is_digit(
            #[trigger] rest.push(c)[i],
            radix,
        ) by {}
    }
}

/// What the byte counts for as a digit of the radix, if it is one.
pub fn to_digit(c: u8, radix: u32) -> (d: Option<u32>)
    requires
        radix <= 36,
    ensures
        d matches Some(x) ==> is_digit(c, radix as nat) && x == digit(c),
        d is None ==> !is_digit(c, radix as nat),
{
    let x: u32 = if '0' as u8 <= c && c <= '9' as u8 {
        (c - '0' as u8) as u32
    } else if 'a' as u8 <= c && c <= 'z' as u8 {
        (c - 'a' as u8) as u32 + 10
    } else if 'A' as u8 <= c && c <= 'Z' as u8 {
        (c - 'A' as u8) as u32 + 10
    } else {
        36
    };
    if x < radix {
        Some(x)
    } else {
        None
    }
}

/// Digits this few, in a radix this small, stand for a number that fits in 64 bits: up
/// to sixteen digits of a radix up to sixteen.
pub fn can_not_overflow<const RADIX: u32>(digits: &[u8]) -> (fits: bool)
    ensures
        fits == (RADIX <= 16 && digits@.len() <= 16),
{
    RADIX <= 16 && digits.len() <= 16
}

/// Reads `digits` as a number in the radix.
///
/// Fails on the first thing that is wrong, reading from the left: no digits at all, a
/// byte that is no digit of the radix, or a number that has grown beyond 64 bits.
pub fn from_slice_radix<const RADIX: u32>(digits: &[u8]) -> (number: Result<u64, ParseIntError>)
    requires
        2 <= RADIX <= 36,
    ensures
        number == parsed(digits@, RADIX as nat),
{
    if digits.len() == 0 {
        return Err(ParseIntError::Empty);
    }
    let ghost radix = RADIX as nat;
    let ghost run = run_end(digits@, radix, 0);
    proof {
        lemma_run_end(digits@, radix, 0);
    }
    let mut result: u64 = 0;
    let mut loc: usize = 0;
    if can_not_overflow::<RADIX>(digits) {
        while loc < digits.len()
            invariant
                2 <= RADIX <= 16,
                radix == RADIX as nat,
                digits@.len() <= 16,
                loc <= digits@.len(),
                run == run_end(digits@, radix, 0),
                loc <= run <= digits@.len(),
                forall|i: int| 0 <= i < run ==> is_digit(digits@[i], radix),
                run < digits@.len() ==> !is_digit(digits@[run], radix),
                result == value_of(digits@.take(loc as int), radix),
            decreases digits@.len() - loc,
        {
            let x = match to_digit(digits[loc], RADIX) {
                Some(x) => x,
                None => {
                    return Err(ParseIntError::InvalidDigit(loc));
                },
            };
            proof {
                let next = digits@.take(loc + 1);
                assert(next.drop_last() =~= digits@.take(loc as int));
                lemma_value_of_bound(next, radix);
                lemma_pow16((loc + 1) as nat);
            }
            result = result * (RADIX as u64) + x as u64;
            loc += 1;
        }
        proof {
            assert(digits@.take(loc as int) =~= digits@);
        }
        Ok(result)
    } else {
        while loc < digits.len()
            invariant
                2 <= RADIX <= 36,
                radix == RADIX as nat,
                loc <= digits@.len(),
                run == run_end(digits@, radix, 0),
                loc <= run <= digits@.len(),
                forall|i: int| 0 <= i < run ==> is_digit(digits@[i], radix),
                run < digits@.len() ==> !is_digit(digits@[run], radix),
                result == value_of(digits@.take(loc as int), radix),
            decreases digits@.len() - loc,
        {
            let x = match to_digit(digits[loc], RADIX) {
                Some(x) => x,
                None => {
                    return Err(ParseIntError::InvalidDigit(loc));
                },
            };
            proof {
                let next = digits@.take(loc + 1);
                assert(next.drop_last() =~= digits@.take(loc as int));
                lemma_value_of_grows(digits@, radix, loc + 1, run);
            }
            let scaled = match result.checked_mul(RADIX as u64) {
                Some(scaled) => scaled,
                None => {
                    return Err(ParseIntError::Overflow);
                },
            };
            result = match scaled.checked_add(x as u64) {
                Some(sum) => sum,
                None => {
                    return Err(ParseIntError::Overflow);
                },
            };
            loc += 1;
        }
        proof {
            assert(digits@.take(loc as int) =~= digits@);
        }
        Ok(result)
    }
}

/// The bytes read as characters, one for one.
pub open spec fn ascii(bytes: Seq<u8>) -> Seq<char> {
    Seq::new(bytes.len(), |i: int| bytes[i] as char)
}

/// The text of one decimal digit.
fn digit_str(d: u64) -> (text: &'static str)
    requires
        d < 10,
    ensures
        text@ == seq![digit_byte(d as nat) as char],
{
    proof {
        reveal_strlit("0");
        reveal_strlit("1");
        reveal_strlit("2");
        reveal_strlit("3");
        reveal_strlit("4");
        reveal_strlit("5");
        reveal_strlit("6");
        reveal_strlit("7");
        reveal_strlit("8");
        reveal_strlit("9");
    }
    let text = if d == 0 {
        "0"
    } else if d == 1 {
        "1"
    } else if d == 2 {
        "2"
    } else if d == 3 {
        "3"
    } else if d == 4 {
        "4"
    } else if d == 5 {
        "5"
    } else if d == 6 {
        "6"
    } else if d == 7 {
        "7"
    } else if d == 8 {
        "8"
    } else {
        "9"
    };
    text
}

/// The number in decimal digits.
pub fn to_decimal(n: u64) -> (text: String)
    ensures
        text@ == ascii(digits_of(n as nat, 10)),
    decreases n,
{
    if n < 10 {
        let text = String::from_str(digit_str(n));
        text
    } else {
        let mut text = to_decimal(n / 10);
        text.append(digit_str(n % 10));
        text
    }
}

} // verus!
