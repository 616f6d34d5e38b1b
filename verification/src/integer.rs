use crate::base::{classify, digit_in, digit_value, digits_in, number_in, to_hex, Base};
use crate::text::normalized;
use crate::{FromBuf, FromBufError};
use std::num::ParseIntError;
use vstd::arithmetic::div_mod::{lemma_fundamental_div_mod, lemma_fundamental_div_mod_converse};
use vstd::prelude::*;

verus! {

/// `std::num::ParseIntError`, carried through unread.
#[verifier::external_type_specification]
#[verifier::external_body]
pub struct ExParseIntError(ParseIntError);

/// The number that `text` writes as a decimal literal: one or more digits
/// `0` to `9`, after one `+` if there is one or, for a signed type, one `-`.
/// Nothing for any other text.
pub open spec fn decimal(text: Seq<char>, signed: bool) -> Option<int> {
    let negative = signed && text.len() > 0 && text.first() == '-';
    let digits = if text.len() > 0 && (text.first() == '+' || negative) {
        text.drop_first()
    } else {
        text
    };
    if digits.len() > 0 && digits_in(10, digits) {
        Some(
            if negative {
                -number_in(10, digits)
            } else {
                number_in(10, digits)
            },
        )
    } else {
        None
    }
}

/// Whether `number` is there and lies from `lowest` to `highest`.
pub open spec fn within(number: Option<int>, lowest: int, highest: int) -> bool {
    match number {
        Some(n) => lowest <= n <= highest,
        None => false,
    }
}

/// The one number from `lowest` to `highest` that differs from `n` by a
/// multiple of the count of numbers in that range: what fixed-width
/// arithmetic keeps of `n`.
pub open spec fn wrap(lowest: int, highest: int, n: int) -> int {
    lowest + (n - lowest) % (highest - lowest + 1)
}

/// A fixed-width integer type that text can be read into.
pub trait Integer: Sized + Copy {
    /// Whether the type has negative values.
    spec fn signed() -> bool;

    /// The least value of the type.
    spec fn lowest() -> int;

    /// The greatest value of the type.
    spec fn highest() -> int;

    /// The number that the value is.
    spec fn number(self) -> int;

    /// What the type's decimal parser says of a text that it refuses.
    spec fn refusal(text: Seq<char>) -> ParseIntError;

    /// The value lies within the type's range, zero does too, and the range
    /// reaches below zero just where the type is signed.
    proof fn in_range(self)
        ensures
            Self::lowest() <= self.number() <= Self::highest(),
            Self::lowest() <= 0 <= Self::highest(),
            Self::signed() <==> Self::lowest() < 0,
    ;

    /// Reads a decimal literal: succeeds on those whose number the type
    /// holds, and on nothing else.
    fn from_decimal(text: &str) -> (out: Result<Self, ParseIntError>)
        ensures
            match out {
                Ok(value) => decimal(text@, Self::signed()) == Some(value.number()),
                Err(error) => !within(
                    decimal(text@, Self::signed()),
                    Self::lowest(),
                    Self::highest(),
                ) && error == Self::refusal(text@),
            },
    ;

    /// The value zero.
    fn zero() -> (out: Self)
        ensures
            out.number() == 0,
    ;

    /// `self * radix + digit` in the arithmetic of the type, which wraps.
    fn shift_in(self, radix: u8, digit: u8) -> (out: Self)
        requires
            digit < radix <= 16,
        ensures
            out.number() == wrap(
                Self::lowest(),
                Self::highest(),
                self.number() * radix + digit,
            ),
    ;
}

/// What `text` stands for as an `N`. A decimal literal that `N` holds stands
/// for its number. Any other text is taken for a literal in binary, octal or
/// hexadecimal notation and stands for what the arithmetic of `N` keeps of
/// its number, however large. Where it is no such literal either, the text
/// is refused with what the decimal parser said of it.
pub open spec fn integer_of<N: Integer>(text: Seq<char>) -> Result<int, FromBufError<ParseIntError>> {
    if within(decimal(text, N::signed()), N::lowest(), N::highest()) {
        Ok(decimal(text, N::signed())->0)
    } else {
        match classify(text) {
            Some(literal) => Ok(wrap(N::lowest(), N::highest(), literal.number())),
            None => Err(FromBufError::ConvertError(N::refusal(text))),
        }
    }
}

/// What the bytes `buf` stand for as an `N`: what their trimmed text does.
pub open spec fn read_integer<N: Integer>(buf: Seq<u8>) -> Result<int, FromBufError<ParseIntError>> {
    match normalized(buf) {
        Some(text) => integer_of::<N>(text),
        None => Err(FromBufError::InvalidUtf8String),
    }
}

/// `out` with the value, if it holds one, replaced by the number that it is.
pub open spec fn numbered<N: Integer, E>(out: Result<N, E>) -> Result<int, E> {
    match out {
        Ok(value) => Ok(value.number()),
        Err(error) => Err(error),
    }
}

/// The number that the literal writes, in the arithmetic of `N`.
pub fn accumulate<N: Integer>(base: &Base) -> (out: N)
    requires
        base@.well_formed(),
    ensures
        out.number() == wrap(N::lowest(), N::highest(), base@.number()),
{
    let (radix, digits): (u8, &String) = match base {
        Base::Binary(digits) => (2, digits),
        Base::Octal(digits) => (8, digits),
        Base::Hex(digits) => (16, digits),
    };
    let mut number = N::zero();
    proof {
        number.in_range();
        wrap_keeps_what_fits(N::lowest(), N::highest(), 0);
    }
    for c in it: digits.as_str().chars()
        invariant
            it.seq() == digits@,
            radix == base@.radix,
            digits@ == base@.digits,
            base@.well_formed(),
            number.number() == wrap(
                N::lowest(),
                N::highest(),
                number_in(radix as int, digits@.take(it.index())),
            ),
    {
        proof {
            number.in_range();
            assert(digits@.take(it.index() + 1).drop_last() =~= digits@.take(it.index()));
            wrap_step(
                N::lowest(),
                N::highest(),
                number_in(radix as int, digits@.take(it.index())),
                radix as int,
                digit_value(c),
            );
        }
        let digit: u8 = to_hex(c as u8) as u8;
        number = number.shift_in(radix, digit);
    }
    proof {
        assert(digits@.take(digits@.len() as int) =~= digits@);
    }
    number
}

/// What `text` stands for as an `N` once the decimal parser has answered
/// with `decimal`: the parser's number if it gave one; else what the type
/// keeps of the literal that the marks of `text` tell; else the parser's
/// refusal.
pub open spec fn settled<N: Integer>(text: Seq<char>, decimal: Result<int, ParseIntError>) -> Result<
    int,
    FromBufError<ParseIntError>,
> {
    match decimal {
        Ok(number) => Ok(number),
        Err(error) => match classify(text) {
            Some(literal) => Ok(wrap(N::lowest(), N::highest(), literal.number())),
            None => Err(FromBufError::ConvertError(error)),
        },
    }
}

/// Settles what `text` stands for, given the decimal parser's answer.
pub fn settle<N: Integer>(text: &str, decimal: Result<N, ParseIntError>) -> (out: Result<
    N,
    FromBufError<ParseIntError>,
>)
    ensures
        numbered(out) == settled::<N>(text@, numbered(decimal)),
{
    match decimal {
        Ok(value) => Ok(value),
        Err(error) => match Base::new(text) {
            Some(base) => Ok(accumulate(&base)),
            None => Err(FromBufError::ConvertError(error)),
        },
    }
}

/// Reads trimmed text as an `N`: as a decimal literal first, then as one in
/// binary, octal or hexadecimal notation.
pub fn parse_integer<N: Integer>(text: &str) -> (out: Result<N, FromBufError<ParseIntError>>)
    ensures
        numbered(out) == integer_of::<N>(text@),
{
    let decimal = N::from_decimal(text);
    proof {
        if let Ok(value) = decimal {
            value.in_range();
        }
    }
    settle(text, decimal)
}

/// Reads a line of bytes as an `N`.
pub fn integer_from_buf<N: Integer>(buf: Vec<u8>) -> (out: Result<N, FromBufError<ParseIntError>>)
    ensures
        numbered(out) == read_integer::<N>(buf@),
{
    match String::from_buf(buf) {
        Ok(text) => parse_integer(text.as_str()),
        Err(_) => Err(FromBufError::InvalidUtf8String),
    }
}

/// `y` is what `wrap` keeps of every number that differs from it by a
/// multiple of the range's size.
pub proof fn wrap_is_unique(lowest: int, highest: int, n: int, y: int, k: int)
    requires
        lowest <= y <= highest,
        y == n + k * (highest - lowest + 1),
    ensures
        wrap(lowest, highest, n) == y,
{
    let size: int = highest - lowest + 1;
    assert(n - lowest == (-k) * size + (y - lowest)) by (nonlinear_arith)
        requires
            y == n + k * size,
    ;
    lemma_fundamental_div_mod_converse(n - lowest, size, -k, y - lowest);
}

/// A number within the range is kept as it is.
pub proof fn wrap_keeps_what_fits(lowest: int, highest: int, n: int)
    requires
        lowest <= n <= highest,
    ensures
        wrap(lowest, highest, n) == n,
{
    wrap_is_unique(lowest, highest, n, n, 0);
}

/// What is kept lies within the range.
pub proof fn wrap_is_within(lowest: int, highest: int, n: int)
    requires
        lowest <= highest,
    ensures
        lowest <= wrap(lowest, highest, n) <= highest,
{
    vstd::arithmetic::div_mod::lemma_mod_bound(n - lowest, highest - lowest + 1);
}

/// Wrapping after each step gives what wrapping once at the end gives.
pub proof fn wrap_step(lowest: int, highest: int, n: int, radix: int, digit: int)
    requires
        lowest <= highest,
    ensures
        wrap(lowest, highest, wrap(lowest, highest, n) * radix + digit) == wrap(
            lowest,
            highest,
            n * radix + digit,
        ),
{
    let size: int = highest - lowest + 1;
    let q: int = (n - lowest) / size;
    let kept: int = wrap(lowest, highest, n);
    lemma_fundamental_div_mod(n - lowest, size);
    let whole: int = n * radix + digit;
    let last: int = wrap(lowest, highest, whole);
    lemma_fundamental_div_mod(whole - lowest, size);
    vstd::arithmetic::div_mod::lemma_mod_bound(whole - lowest, size);
    let p: int = (whole - lowest) / size;
    assert(last == (kept * radix + digit) + (q * radix - p) * size) by (nonlinear_arith)
        requires
            last == n * radix + digit - size * p,
            kept == n - size * q,
    ;
    wrap_is_unique(lowest, highest, kept * radix + digit, last, q * radix - p);
}

/// One step of unsigned wrapping arithmetic: a product reduced by the
/// range's size, then a small addend, reduced once more.
pub proof fn unsigned_step(size: int, product: int, digit: int)
    requires
        size > 0,
        0 <= digit < size,
    ensures
        ({
            let reduced: int = product % size;
            if reduced + digit > size - 1 {
                reduced + digit - size
            } else {
                reduced + digit
            }
        }) == wrap(0, size - 1, product + digit),
{
    let reduced: int = product % size;
    lemma_fundamental_div_mod(product, size);
    vstd::arithmetic::div_mod::lemma_mod_bound(product, size);
    let q: int = product / size;
    if reduced + digit > size - 1 {
        assert(reduced + digit - size == (product + digit) + (-q - 1) * size) by (nonlinear_arith)
            requires
                product == size * q + reduced,
        ;
        wrap_is_unique(0, size - 1, product + digit, reduced + digit - size, -q - 1);
    } else {
        assert(reduced + digit == (product + digit) + (-q) * size) by (nonlinear_arith)
            requires
                product == size * q + reduced,
        ;
        wrap_is_unique(0, size - 1, product + digit, reduced + digit, -q);
    }
}

/// One step of signed wrapping arithmetic over the range from `-half` to
/// `half - 1`.
pub proof fn signed_step(half: int, product: int, digit: int)
    requires
        half > 0,
        0 <= digit < half,
    ensures
        ({
            let reduced: int = product % (2 * half);
            let cropped: int = if reduced > half - 1 {
                reduced - 2 * half
            } else {
                reduced
            };
            let sum: int = cropped + digit;
            if sum > half - 1 {
                sum - 2 * half
            } else if sum < -half {
                sum + 2 * half
            } else {
                sum
            }
        }) == wrap(-half, half - 1, product + digit),
{
    let size: int = 2 * half;
    let reduced: int = product % size;
    lemma_fundamental_div_mod(product, size);
    vstd::arithmetic::div_mod::lemma_mod_bound(product, size);
    let q: int = product / size;
    let a: int = if reduced > half - 1 {
        1
    } else {
        0
    };
    let cropped: int = reduced - a * size;
    let sum: int = cropped + digit;
    let b: int = if sum > half - 1 {
        1
    } else {
        0
    };
    let last: int = sum - b * size;
    assert(last == (product + digit) + (-q - a - b) * size) by (nonlinear_arith)
        requires
            product == size * q + reduced,
            last == reduced - a * size + digit - b * size,
    ;
    wrap_is_unique(-half, half - 1, product + digit, last, -q - a - b);
}

} // verus!
