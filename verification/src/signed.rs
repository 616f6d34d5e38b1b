use crate::integer::{decimal, integer_from_buf, read_integer, signed_step, within, Integer};
use crate::{FromBuf, FromBufError};
use std::num::ParseIntError;
use vstd::prelude::*;

verus! {

/// What `str::parse::<i8>` says of a text that it refuses.
pub uninterp spec fn i8_refusal(text: Seq<char>) -> ParseIntError;

/// `str::parse::<i8>`: reads a decimal literal, one or more digits after at
/// most one `+` or `-`. It gives the number where an `i8` holds it and refuses
/// every other text; what it says of a refused text is named, not stated.
#[verifier::external_body]
fn parse_i8(text: &str) -> (out: Result<i8, ParseIntError>)
    ensures
        match out {
            Ok(value) => decimal(text@, true) == Some(value as int),
            Err(error) => !within(decimal(text@, true), i8::MIN as int, i8::MAX as int)
                && error == i8_refusal(text@),
        },
{
    text.parse::<i8>()
}

impl Integer for i8 {
    open spec fn signed() -> bool {
        true
    }

    open spec fn lowest() -> int {
        i8::MIN as int
    }

    open spec fn highest() -> int {
        i8::MAX as int
    }

    open spec fn number(self) -> int {
        self as int
    }

    open spec fn refusal(text: Seq<char>) -> ParseIntError {
        i8_refusal(text)
    }

    proof fn in_range(self) {
    }

    fn from_decimal(text: &str) -> (out: Result<Self, ParseIntError>) {
        parse_i8(text)
    }

    fn zero() -> (out: Self) {
        0
    }

    fn shift_in(self, radix: u8, digit: u8) -> (out: Self) {
        proof {
            signed_step(i8::MAX as int + 1, self as int * radix as int, digit as int);
        }
        self.wrapping_mul(radix as i8).wrapping_add(digit as i8)
    }
}

impl FromBuf for i8 {
    type Error = ParseIntError;

    open spec fn read(buf: Seq<u8>) -> Result<i8, FromBufError<ParseIntError>> {
        match read_integer::<i8>(buf) {
            Ok(number) => Ok(number as i8),
            Err(error) => Err(error),
        }
    }

    fn from_buf(buf: Vec<u8>) -> (out: Result<Self, FromBufError<Self::Error>>) {
        integer_from_buf(buf)
    }
}

/// What `str::parse::<i16>` says of a text that it refuses.
pub uninterp spec fn i16_refusal(text: Seq<char>) -> ParseIntError;

/// `str::parse::<i16>`: reads a decimal literal, one or more digits after at
/// most one `+` or `-`. It gives the number where an `i16` holds it and refuses
/// every other text; what it says of a refused text is named, not stated.
#[verifier::external_body]
fn parse_i16(text: &str) -> (out: Result<i16, ParseIntError>)
    ensures
        match out {
            Ok(value) => decimal(text@, true) == Some(value as int),
            Err(error) => !within(decimal(text@, true), i16::MIN as int, i16::MAX as int)
                && error == i16_refusal(text@),
        },
{
    text.parse::<i16>()
}

impl Integer for i16 {
    open spec fn signed() -> bool {
        true
    }

    open spec fn lowest() -> int {
        i16::MIN as int
    }

    open spec fn highest() -> int {
        i16::MAX as int
    }

    open spec fn number(self) -> int {
        self as int
    }

    open spec fn refusal(text: Seq<char>) -> ParseIntError {
        i16_refusal(text)
    }

    proof fn in_range(self) {
    }

    fn from_decimal(text: &str) -> (out: Result<Self, ParseIntError>) {
        parse_i16(text)
    }

    fn zero() -> (out: Self) {
        0
    }

    fn shift_in(self, radix: u8, digit: u8) -> (out: Self) {
        proof {
            signed_step(i16::MAX as int + 1, self as int * radix as int, digit as int);
        }
        self.wrapping_mul(radix as i16).wrapping_add(digit as i16)
    }
}

impl FromBuf for i16 {
    type Error = ParseIntError;

    open spec fn read(buf: Seq<u8>) -> Result<i16, FromBufError<ParseIntError>> {
        match read_integer::<i16>(buf) {
            Ok(number) => Ok(number as i16),
            Err(error) => Err(error),
        }
    }

    fn from_buf(buf: Vec<u8>) -> (out: Result<Self, FromBufError<Self::Error>>) {
        integer_from_buf(buf)
    }
}

/// What `str::parse::<i32>` says of a text that it refuses.
pub uninterp spec fn i32_refusal(text: Seq<char>) -> ParseIntError;

/// `str::parse::<i32>`: reads a decimal literal, one or more digits after at
/// most one `+` or `-`. It gives the number where an `i32` holds it and refuses
/// every other text; what it says of a refused text is named, not stated.
#[verifier::external_body]
fn parse_i32(text: &str) -> (out: Result<i32, ParseIntError>)
    ensures
        match out {
            Ok(value) => decimal(text@, true) == Some(value as int),
            Err(error) => !within(decimal(text@, true), i32::MIN as int, i32::MAX as int)
                && error == i32_refusal(text@),
        },
{
    text.parse::<i32>()
}

impl Integer for i32 {
    open spec fn signed() -> bool {
        true
    }

    open spec fn lowest() -> int {
        i32::MIN as int
    }

    open spec fn highest() -> int {
        i32::MAX as int
    }

    open spec fn number(self) -> int {
        self as int
    }

    open spec fn refusal(text: Seq<char>) -> ParseIntError {
        i32_refusal(text)
    }

    proof fn in_range(self) {
    }

    fn from_decimal(text: &str) -> (out: Result<Self, ParseIntError>) {
        parse_i32(text)
    }

    fn zero() -> (out: Self) {
        0
    }

    fn shift_in(self, radix: u8, digit: u8) -> (out: Self) {
        proof {
            signed_step(i32::MAX as int + 1, self as int * radix as int, digit as int);
        }
        self.wrapping_mul(radix as i32).wrapping_add(digit as i32)
    }
}

impl FromBuf for i32 {
    type Error = ParseIntError;

    open spec fn read(buf: Seq<u8>) -> Result<i32, FromBufError<ParseIntError>> {
        match read_integer::<i32>(buf) {
            Ok(number) => Ok(number as i32),
            Err(error) => Err(error),
        }
    }

    fn from_buf(buf: Vec<u8>) -> (out: Result<Self, FromBufError<Self::Error>>) {
        integer_from_buf(buf)
    }
}

/// What `str::parse::<isize>` says of a text that it refuses, on a machine
/// whose greatest `isize` is `highest`.
pub uninterp spec fn isize_refusal(text: Seq<char>, highest: int) -> ParseIntError;

/// `str::parse::<isize>`: reads a decimal literal, one or more digits after at
/// most one `+` or `-`. It gives the number where an `isize` holds it and
/// refuses every other text; what it says of a refused text is named, not
/// stated. The width of `isize` is the machine's, so the name takes the
/// greatest value beside the text.
#[verifier::external_body]
fn parse_isize(text: &str) -> (out: Result<isize, ParseIntError>)
    ensures
        match out {
            Ok(value) => decimal(text@, true) == Some(value as int),
            Err(error) => !within(decimal(text@, true), isize::MIN as int, isize::MAX as int)
                && error == isize_refusal(text@, isize::MAX as int),
        },
{
    text.parse::<isize>()
}

impl Integer for isize {
    open spec fn signed() -> bool {
        true
    }

    open spec fn lowest() -> int {
        isize::MIN as int
    }

    open spec fn highest() -> int {
        isize::MAX as int
    }

    open spec fn number(self) -> int {
        self as int
    }

    open spec fn refusal(text: Seq<char>) -> ParseIntError {
        isize_refusal(text, isize::MAX as int)
    }

    proof fn in_range(self) {
    }

    fn from_decimal(text: &str) -> (out: Result<Self, ParseIntError>) {
        parse_isize(text)
    }

    fn zero() -> (out: Self) {
        0
    }

    fn shift_in(self, radix: u8, digit: u8) -> (out: Self) {
        proof {
            signed_step(isize::MAX as int + 1, self as int * radix as int, digit as int);
        }
        self.wrapping_mul(radix as isize).wrapping_add(digit as isize)
    }
}

impl FromBuf for isize {
    type Error = ParseIntError;

    open spec fn read(buf: Seq<u8>) -> Result<isize, FromBufError<ParseIntError>> {
        match read_integer::<isize>(buf) {
            Ok(number) => Ok(number as isize),
            Err(error) => Err(error),
        }
    }

    fn from_buf(buf: Vec<u8>) -> (out: Result<Self, FromBufError<Self::Error>>) {
        integer_from_buf(buf)
    }
}

/// What `str::parse::<i64>` says of a text that it refuses.
pub uninterp spec fn i64_refusal(text: Seq<char>) -> ParseIntError;

/// `str::parse::<i64>`: reads a decimal literal, one or more digits after at
/// most one `+` or `-`. It gives the number where an `i64` holds it and refuses
/// every other text; what it says of a refused text is named, not stated.
#[verifier::external_body]
fn parse_i64(text: &str) -> (out: Result<i64, ParseIntError>)
    ensures
        match out {
            Ok(value) => decimal(text@, true) == Some(value as int),
            Err(error) => !within(decimal(text@, true), i64::MIN as int, i64::MAX as int)
                && error == i64_refusal(text@),
        },
{
    text.parse::<i64>()
}

impl Integer for i64 {
    open spec fn signed() -> bool {
        true
    }

    open spec fn lowest() -> int {
        i64::MIN as int
    }

    open spec fn highest() -> int {
        i64::MAX as int
    }

    open spec fn number(self) -> int {
        self as int
    }

    open spec fn refusal(text: Seq<char>) -> ParseIntError {
        i64_refusal(text)
    }

    proof fn in_range(self) {
    }

    fn from_decimal(text: &str) -> (out: Result<Self, ParseIntError>) {
        parse_i64(text)
    }

    fn zero() -> (out: Self) {
        0
    }

    fn shift_in(self, radix: u8, digit: u8) -> (out: Self) {
        proof {
            signed_step(i64::MAX as int + 1, self as int * radix as int, digit as int);
        }
        self.wrapping_mul(radix as i64).wrapping_add(digit as i64)
    }
}

impl FromBuf for i64 {
    type Error = ParseIntError;

    open spec fn read(buf: Seq<u8>) -> Result<i64, FromBufError<ParseIntError>> {
        match read_integer::<i64>(buf) {
            Ok(number) => Ok(number as i64),
            Err(error) => Err(error),
        }
    }

    fn from_buf(buf: Vec<u8>) -> (out: Result<Self, FromBufError<Self::Error>>) {
        integer_from_buf(buf)
    }
}

/// What `str::parse::<i128>` says of a text that it refuses.
pub uninterp spec fn i128_refusal(text: Seq<char>) -> ParseIntError;

/// `str::parse::<i128>`: reads a decimal literal, one or more digits after at
/// most one `+` or `-`. It gives the number where an `i128` holds it and refuses
/// every other text; what it says of a refused text is named, not stated.
#[verifier::external_body]
fn parse_i128(text: &str) -> (out: Result<i128, ParseIntError>)
    ensures
        match out {
            Ok(value) => decimal(text@, true) == Some(value as int),
            Err(error) => !within(decimal(text@, true), i128::MIN as int, i128::MAX as int)
                && error == i128_refusal(text@),
        },
{
    text.parse::<i128>()
}

impl Integer for i128 {
    open spec fn signed() -> bool {
        true
    }

    open spec fn lowest() -> int {
        i128::MIN as int
    }

    open spec fn highest() -> int {
        i128::MAX as int
    }

    open spec fn number(self) -> int {
        self as int
    }

    open spec fn refusal(text: Seq<char>) -> ParseIntError {
        i128_refusal(text)
    }

    proof fn in_range(self) {
    }

    fn from_decimal(text: &str) -> (out: Result<Self, ParseIntError>) {
        parse_i128(text)
    }

    fn zero() -> (out: Self) {
        0
    }

    fn shift_in(self, radix: u8, digit: u8) -> (out: Self) {
        proof {
            signed_step(i128::MAX as int + 1, self as int * radix as int, digit as int);
        }
        self.wrapping_mul(radix as i128).wrapping_add(digit as i128)
    }
}

impl FromBuf for i128 {
    type Error = ParseIntError;

    open spec fn read(buf: Seq<u8>) -> Result<i128, FromBufError<ParseIntError>> {
        match read_integer::<i128>(buf) {
            Ok(number) => Ok(number as i128),
            Err(error) => Err(error),
        }
    }

    fn from_buf(buf: Vec<u8>) -> (out: Result<Self, FromBufError<Self::Error>>) {
        integer_from_buf(buf)
    }
}

} // verus!
