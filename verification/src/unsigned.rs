use crate::integer::{decimal, integer_from_buf, read_integer, unsigned_step, within, Integer};
use crate::{FromBuf, FromBufError};
use std::num::ParseIntError;
use vstd::prelude::*;

verus! {

/// What `str::parse::<u8>` says of a text that it refuses.
pub uninterp spec fn u8_refusal(text: Seq<char>) -> ParseIntError;

/// `str::parse::<u8>`: reads a decimal literal, one or more digits after at
/// most one `+`. It gives the number where a `u8` holds it and refuses
/// every other text; what it says of a refused text is named, not stated.
#[verifier::external_body]
fn parse_u8(text: &str) -> (out: Result<u8, ParseIntError>)
    ensures
        match out {
            Ok(value) => decimal(text@, false) == Some(value as int),
            Err(error) => !within(decimal(text@, false), u8::MIN as int, u8::MAX as int)
                && error == u8_refusal(text@),
        },
{
    text.parse::<u8>()
}

impl Integer for u8 {
    open spec fn signed() -> bool {
        false
    }

    open spec fn lowest() -> int {
        u8::MIN as int
    }

    open spec fn highest() -> int {
        u8::MAX as int
    }

    open spec fn number(self) -> int {
        self as int
    }

    open spec fn refusal(text: Seq<char>) -> ParseIntError {
        u8_refusal(text)
    }

    proof fn in_range(self) {
    }

    fn from_decimal(text: &str) -> (out: Result<Self, ParseIntError>) {
        parse_u8(text)
    }

    fn zero() -> (out: Self) {
        0
    }

    fn shift_in(self, radix: u8, digit: u8) -> (out: Self) {
        proof {
            unsigned_step(u8::MAX as int + 1, self as int * radix as int, digit as int);
        }
        self.wrapping_mul(radix).wrapping_add(digit)
    }
}

impl FromBuf for u8 {
    type Error = ParseIntError;

    open spec fn read(buf: Seq<u8>) -> Result<u8, FromBufError<ParseIntError>> {
        match read_integer::<u8>(buf) {
            Ok(number) => Ok(number as u8),
            Err(error) => Err(error),
        }
    }

    fn from_buf(buf: Vec<u8>) -> (out: Result<Self, FromBufError<Self::Error>>) {
        integer_from_buf(buf)
    }
}

/// What `str::parse::<u16>` says of a text that it refuses.
pub uninterp spec fn u16_refusal(text: Seq<char>) -> ParseIntError;

/// `str::parse::<u16>`: reads a decimal literal, one or more digits after at
/// most one `+`. It gives the number where a `u16` holds it and refuses
/// every other text; what it says of a refused text is named, not stated.
#[verifier::external_body]
fn parse_u16(text: &str) -> (out: Result<u16, ParseIntError>)
    ensures
        match out {
            Ok(value) => decimal(text@, false) == Some(value as int),
            Err(error) => !within(decimal(text@, false), u16::MIN as int, u16::MAX as int)
                && error == u16_refusal(text@),
        },
{
    text.parse::<u16>()
}

impl Integer for u16 {
    open spec fn signed() -> bool {
        false
    }

    open spec fn lowest() -> int {
        u16::MIN as int
    }

    open spec fn highest() -> int {
        u16::MAX as int
    }

    open spec fn number(self) -> int {
        self as int
    }

    open spec fn refusal(text: Seq<char>) -> ParseIntError {
        u16_refusal(text)
    }

    proof fn in_range(self) {
    }

    fn from_decimal(text: &str) -> (out: Result<Self, ParseIntError>) {
        parse_u16(text)
    }

    fn zero() -> (out: Self) {
        0
    }

    fn shift_in(self, radix: u8, digit: u8) -> (out: Self) {
        proof {
            unsigned_step(u16::MAX as int + 1, self as int * radix as int, digit as int);
        }
        self.wrapping_mul(radix as u16).wrapping_add(digit as u16)
    }
}

impl FromBuf for u16 {
    type Error = ParseIntError;

    open spec fn read(buf: Seq<u8>) -> Result<u16, FromBufError<ParseIntError>> {
        match read_integer::<u16>(buf) {
            Ok(number) => Ok(number as u16),
            Err(error) => Err(error),
        }
    }

    fn from_buf(buf: Vec<u8>) -> (out: Result<Self, FromBufError<Self::Error>>) {
        integer_from_buf(buf)
    }
}

/// What `str::parse::<u32>` says of a text that it refuses.
pub uninterp spec fn u32_refusal(text: Seq<char>) -> ParseIntError;

/// `str::parse::<u32>`: reads a decimal literal, one or more digits after at
/// most one `+`. It gives the number where a `u32` holds it and refuses
/// every other text; what it says of a refused text is named, not stated.
#[verifier::external_body]
fn parse_u32(text: &str) -> (out: Result<u32, ParseIntError>)
    ensures
        match out {
            Ok(value) => decimal(text@, false) == Some(value as int),
            Err(error) => !within(decimal(text@, false), u32::MIN as int, u32::MAX as int)
                && error == u32_refusal(text@),
        },
{
    text.parse::<u32>()
}

impl Integer for u32 {
    open spec fn signed() -> bool {
        false
    }

    open spec fn lowest() -> int {
        u32::MIN as int
    }

    open spec fn highest() -> int {
        u32::MAX as int
    }

    open spec fn number(self) -> int {
        self as int
    }

    open spec fn refusal(text: Seq<char>) -> ParseIntError {
        u32_refusal(text)
    }

    proof fn in_range(self) {
    }

    fn from_decimal(text: &str) -> (out: Result<Self, ParseIntError>) {
        parse_u32(text)
    }

    fn zero() -> (out: Self) {
        0
    }

    fn shift_in(self, radix: u8, digit: u8) -> (out: Self) {
        proof {
            unsigned_step(u32::MAX as int + 1, self as int * radix as int, digit as int);
        }
        self.wrapping_mul(radix as u32).wrapping_add(digit as u32)
    }
}

impl FromBuf for u32 {
    type Error = ParseIntError;

    open spec fn read(buf: Seq<u8>) -> Result<u32, FromBufError<ParseIntError>> {
        match read_integer::<u32>(buf) {
            Ok(number) => Ok(number as u32),
            Err(error) => Err(error),
        }
    }

    fn from_buf(buf: Vec<u8>) -> (out: Result<Self, FromBufError<Self::Error>>) {
        integer_from_buf(buf)
    }
}

/// What `str::parse::<usize>` says of a text that it refuses, on a machine
/// whose greatest `usize` is `highest`.
pub uninterp spec fn usize_refusal(text: Seq<char>, highest: int) -> ParseIntError;

/// `str::parse::<usize>`: reads a decimal literal, one or more digits after at
/// most one `+`. It gives the number where a `usize` holds it and
/// refuses every other text; what it says of a refused text is named, not
/// stated. The width of `usize` is the machine's, so the name takes the
/// greatest value beside the text.
#[verifier::external_body]
fn parse_usize(text: &str) -> (out: Result<usize, ParseIntError>)
    ensures
        match out {
            Ok(value) => decimal(text@, false) == Some(value as int),
            Err(error) => !within(decimal(text@, false), usize::MIN as int, usize::MAX as int)
                && error == usize_refusal(text@, usize::MAX as int),
        },
{
    text.parse::<usize>()
}

impl Integer for usize {
    open spec fn signed() -> bool {
        false
    }

    open spec fn lowest() -> int {
        usize::MIN as int
    }

    open spec fn highest() -> int {
        usize::MAX as int
    }

    open spec fn number(self) -> int {
        self as int
    }

    open spec fn refusal(text: Seq<char>) -> ParseIntError {
        usize_refusal(text, usize::MAX as int)
    }

    proof fn in_range(self) {
    }

    fn from_decimal(text: &str) -> (out: Result<Self, ParseIntError>) {
        parse_usize(text)
    }

    fn zero() -> (out: Self) {
        0
    }

    fn shift_in(self, radix: u8, digit: u8) -> (out: Self) {
        proof {
            unsigned_step(usize::MAX as int + 1, self as int * radix as int, digit as int);
        }
        self.wrapping_mul(radix as usize).wrapping_add(digit as usize)
    }
}

impl FromBuf for usize {
    type Error = ParseIntError;

    open spec fn read(buf: Seq<u8>) -> Result<usize, FromBufError<ParseIntError>> {
        match read_integer::<usize>(buf) {
            Ok(number) => Ok(number as usize),
            Err(error) => Err(error),
        }
    }

    fn from_buf(buf: Vec<u8>) -> (out: Result<Self, FromBufError<Self::Error>>) {
        integer_from_buf(buf)
    }
}

/// What `str::parse::<u64>` says of a text that it refuses.
pub uninterp spec fn u64_refusal(text: Seq<char>) -> ParseIntError;

/// `str::parse::<u64>`: reads a decimal literal, one or more digits after at
/// most one `+`. It gives the number where a `u64` holds it and refuses
/// every other text; what it says of a refused text is named, not stated.
#[verifier::external_body]
fn parse_u64(text: &str) -> (out: Result<u64, ParseIntError>)
    ensures
        match out {
            Ok(value) => decimal(text@, false) == Some(value as int),
            Err(error) => !within(decimal(text@, false), u64::MIN as int, u64::MAX as int)
                && error == u64_refusal(text@),
        },
{
    text.parse::<u64>()
}

impl Integer for u64 {
    open spec fn signed() -> bool {
        false
    }

    open spec fn lowest() -> int {
        u64::MIN as int
    }

    open spec fn highest() -> int {
        u64::MAX as int
    }

    open spec fn number(self) -> int {
        self as int
    }

    open spec fn refusal(text: Seq<char>) -> ParseIntError {
        u64_refusal(text)
    }

    proof fn in_range(self) {
    }

    fn from_decimal(text: &str) -> (out: Result<Self, ParseIntError>) {
        parse_u64(text)
    }

    fn zero() -> (out: Self) {
        0
    }

    fn shift_in(self, radix: u8, digit: u8) -> (out: Self) {
        proof {
            unsigned_step(u64::MAX as int + 1, self as int * radix as int, digit as int);
        }
        self.wrapping_mul(radix as u64).wrapping_add(digit as u64)
    }
}

impl FromBuf for u64 {
    type Error = ParseIntError;

    open spec fn read(buf: Seq<u8>) -> Result<u64, FromBufError<ParseIntError>> {
        match read_integer::<u64>(buf) {
            Ok(number) => Ok(number as u64),
            Err(error) => Err(error),
        }
    }

    fn from_buf(buf: Vec<u8>) -> (out: Result<Self, FromBufError<Self::Error>>) {
        integer_from_buf(buf)
    }
}

/// What `str::parse::<u128>` says of a text that it refuses.
pub uninterp spec fn u128_refusal(text: Seq<char>) -> ParseIntError;

/// `str::parse::<u128>`: reads a decimal literal, one or more digits after at
/// most one `+`. It gives the number where a `u128` holds it and refuses
/// every other text; what it says of a refused text is named, not stated.
#[verifier::external_body]
fn parse_u128(text: &str) -> (out: Result<u128, ParseIntError>)
    ensures
        match out {
            Ok(value) => decimal(text@, false) == Some(value as int),
            Err(error) => !within(decimal(text@, false), u128::MIN as int, u128::MAX as int)
                && error == u128_refusal(text@),
        },
{
    text.parse::<u128>()
}

impl Integer for u128 {
    open spec fn signed() -> bool {
        false
    }

    open spec fn lowest() -> int {
        u128::MIN as int
    }

    open spec fn highest() -> int {
        u128::MAX as int
    }

    open spec fn number(self) -> int {
        self as int
    }

    open spec fn refusal(text: Seq<char>) -> ParseIntError {
        u128_refusal(text)
    }

    proof fn in_range(self) {
    }

    fn from_decimal(text: &str) -> (out: Result<Self, ParseIntError>) {
        parse_u128(text)
    }

    fn zero() -> (out: Self) {
        0
    }

    fn shift_in(self, radix: u8, digit: u8) -> (out: Self) {
        proof {
            unsigned_step(u128::MAX as int + 1, self as int * radix as int, digit as int);
        }
        self.wrapping_mul(radix as u128).wrapping_add(digit as u128)
    }
}

impl FromBuf for u128 {
    type Error = ParseIntError;

    open spec fn read(buf: Seq<u8>) -> Result<u128, FromBufError<ParseIntError>> {
        match read_integer::<u128>(buf) {
            Ok(number) => Ok(number as u128),
            Err(error) => Err(error),
        }
    }

    fn from_buf(buf: Vec<u8>) -> (out: Result<Self, FromBufError<Self::Error>>) {
        integer_from_buf(buf)
    }
}

} // verus!
