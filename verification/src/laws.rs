use crate::base::{
    classify, decimal_digit, digit_in, digit_value, digits_in, hex_digit, number_in, Literal,
};
use crate::convert::{read_each, read_each_stays_refused};
use crate::integer::{decimal, integer_of, read_integer, within, wrap, Integer};
use crate::text::{
    kept, lower_case, lowered, normalized, pieces, tokens_of, trim_end, trim_start, trimmed,
    white_space,
};
use crate::{outcome, FromBuf, FromBufError};
use std::num::ParseIntError;
use vstd::prelude::*;
use vstd::utf8::encode_utf8;

verus! {

/// The character that writes the digit `d`.
pub open spec fn digit_char(d: int) -> char {
    seq!['0', '1', '2', '3', '4', '5', '6', '7', '8', '9'][d]
}

/// The digits that write `n` in decimal notation, without leading zeros.
pub open spec fn digits_of(n: nat) -> Seq<char>
    decreases n,
{
    if n < 10 {
        seq![digit_char(n as int)]
    } else {
        digits_of(n / 10).push(digit_char(n as int % 10))
    }
}

/// The usual decimal text of `n`: its digits, after a `-` where `n` is
/// negative.
pub open spec fn decimal_text(n: int) -> Seq<char> {
    if n < 0 {
        seq!['-'] + digits_of((-n) as nat)
    } else {
        digits_of(n as nat)
    }
}

proof fn digits_of_reads_back(n: nat)
    ensures
        digits_of(n).len() > 0,
        digits_in(10, digits_of(n)),
        number_in(10, digits_of(n)) == n,
    decreases n,
{
    if n < 10 {
        assert(number_in(10, digits_of(n).drop_last()) == 0);
    } else {
        digits_of_reads_back(n / 10);
        let head = digits_of(n / 10);
        let last = digit_char(n as int % 10);
        assert(head.push(last).drop_last() =~= head);
        assert forall|i: int| 0 <= i < head.push(last).len() implies digit_in(
            10,
            #[trigger] head.push(last)[i],
        ) by {
        }
    }
}

/// The usual decimal text of a number reads back as that number, for a
/// signed reader always and for an unsigned one where the number is not
/// negative.
pub proof fn decimal_text_reads_back(n: int, signed: bool)
    requires
        signed || n >= 0,
    ensures
        decimal(decimal_text(n), signed) == Some(n),
{
    if n < 0 {
        digits_of_reads_back((-n) as nat);
        assert(decimal_text(n).drop_first() =~= digits_of((-n) as nat));
    } else {
        digits_of_reads_back(n as nat);
    }
}

/// A decimal literal whose number the type holds is read as exactly that
/// number.
pub proof fn decimal_literal_reads_exactly<N: Integer>(text: Seq<char>)
    requires
        within(decimal(text, N::signed()), N::lowest(), N::highest()),
    ensures
        integer_of::<N>(text) == Ok::<int, FromBufError<ParseIntError>>(
            decimal(text, N::signed())->0,
        ),
{
}

/// Every number of the type, written out in decimal, is read back as
/// itself.
pub proof fn formatted_number_reads_back<N: Integer>(value: N)
    ensures
        integer_of::<N>(decimal_text(value.number())) == Ok::<int, FromBufError<ParseIntError>>(
            value.number(),
        ),
{
    value.in_range();
    decimal_text_reads_back(value.number(), N::signed());
}

proof fn no_decimal_with_a_letter(text: Seq<char>, signed: bool, at: int)
    requires
        0 <= at < text.len(),
        !decimal_digit(text[at]),
        at > 0 || (text[0] != '+' && text[0] != '-'),
    ensures
        decimal(text, signed) is None,
{
    let negative = signed && text.len() > 0 && text.first() == '-';
    if text.first() == '+' || negative {
        assert(!digit_in(10, text.drop_first()[at - 1]));
    }
}

/// Binary digits with `0b` in front or `b` behind, the mark in either case,
/// are read as the number that they write in binary, as far as the type's
/// arithmetic keeps it.
pub proof fn binary_literal_reads_wrapped<N: Integer>(digits: Seq<char>, mark: char)
    requires
        digits_in(2, digits),
        mark == 'b' || mark == 'B',
    ensures
        integer_of::<N>(seq!['0', mark] + digits) == Ok::<int, FromBufError<ParseIntError>>(
            wrap(N::lowest(), N::highest(), number_in(2, digits)),
        ),
        integer_of::<N>(digits.push(mark)) == Ok::<int, FromBufError<ParseIntError>>(
            wrap(N::lowest(), N::highest(), number_in(2, digits)),
        ),
{
    let front = seq!['0', mark] + digits;
    no_decimal_with_a_letter(front, N::signed(), 1);
    assert(lowered(front).skip(2) =~= digits) by {
        assert forall|i: int| 0 <= i < digits.len() implies lowered(front).skip(2)[i]
            == digits[i] by {
        }
    }

    let behind = digits.push(mark);
    no_decimal_with_a_letter(behind, N::signed(), digits.len() as int);
    assert(lowered(behind).drop_last() =~= digits) by {
        assert forall|i: int| 0 <= i < digits.len() implies lowered(behind).drop_last()[i]
            == digits[i] by {
        }
    }
    if digits.len() >= 1 && lowered(behind)[0] == '0' && lowered(behind)[1] == 'b' {
        // Only `0b` itself is of both forms; with or without its one digit
        // it writes zero.
        assert(lowered(behind).skip(2) =~= Seq::<char>::empty());
        assert(number_in(2, digits.drop_last()) == 0);
    }
}

/// Octal digits with `0o` in front, the mark in either case, are read as the
/// number that they write in octal, as far as the type's arithmetic keeps
/// it.
pub proof fn octal_literal_reads_wrapped<N: Integer>(digits: Seq<char>, mark: char)
    requires
        digits_in(8, digits),
        mark == 'o' || mark == 'O',
    ensures
        integer_of::<N>(seq!['0', mark] + digits) == Ok::<int, FromBufError<ParseIntError>>(
            wrap(N::lowest(), N::highest(), number_in(8, digits)),
        ),
{
    let front = seq!['0', mark] + digits;
    no_decimal_with_a_letter(front, N::signed(), 1);
    assert(lowered(front).skip(2) =~= digits) by {
        assert forall|i: int| 0 <= i < digits.len() implies lowered(front).skip(2)[i]
            == digits[i] by {
        }
    }
}

/// A hexadecimal digit in either case.
pub open spec fn hex_digit_in_any_case(c: char) -> bool {
    hex_digit(c) || 'A' <= c <= 'F'
}

/// Whether every character of `s` is a hexadecimal digit, in either case.
pub open spec fn hex_digits_in_any_case(s: Seq<char>) -> bool {
    forall|i: int| 0 <= i < s.len() ==> hex_digit_in_any_case(#[trigger] s[i])
}

proof fn lowered_hex_digits(digits: Seq<char>)
    requires
        hex_digits_in_any_case(digits),
    ensures
        digits_in(16, lowered(digits)),
        number_in(16, lowered(digits)) == number_in(16, digits),
    decreases digits.len(),
{
    assert forall|i: int| 0 <= i < digits.len() implies digit_in(
        16,
        #[trigger] lowered(digits)[i],
    ) by {
    }
    if digits.len() > 0 {
        assert(lowered(digits).drop_last() =~= lowered(digits.drop_last()));
        assert forall|i: int| 0 <= i < digits.drop_last().len() implies hex_digit_in_any_case(
            #[trigger] digits.drop_last()[i],
        ) by {
        }
        lowered_hex_digits(digits.drop_last());
    }
}

/// Hexadecimal digits with `0x` in front, digits and mark in either case,
/// are read as the number that they write in hexadecimal, as far as the
/// type's arithmetic keeps it, unless the last digit is a `b`: such a text
/// counts as binary and is refused.
pub proof fn hex_literal_with_prefix_reads_wrapped<N: Integer>(digits: Seq<char>, mark: char)
    requires
        hex_digits_in_any_case(digits),
        mark == 'x' || mark == 'X',
        digits.len() > 0 ==> digits.last() != 'b' && digits.last() != 'B',
    ensures
        integer_of::<N>(seq!['0', mark] + digits) == Ok::<int, FromBufError<ParseIntError>>(
            wrap(N::lowest(), N::highest(), number_in(16, digits)),
        ),
{
    let front = seq!['0', mark] + digits;
    no_decimal_with_a_letter(front, N::signed(), 1);
    lowered_hex_digits(digits);
    assert(lowered(front).skip(2) =~= lowered(digits));
}

/// Hexadecimal digits with `h` behind, digits and mark in either case, are
/// read as the number that they write in hexadecimal, as far as the type's
/// arithmetic keeps it, unless they begin with `0b`: such a text counts as
/// binary and is refused.
pub proof fn hex_literal_with_suffix_reads_wrapped<N: Integer>(digits: Seq<char>, mark: char)
    requires
        hex_digits_in_any_case(digits),
        mark == 'h' || mark == 'H',
        !(digits.len() >= 2 && digits[0] == '0' && (digits[1] == 'b' || digits[1] == 'B')),
    ensures
        integer_of::<N>(digits.push(mark)) == Ok::<int, FromBufError<ParseIntError>>(
            wrap(N::lowest(), N::highest(), number_in(16, digits)),
        ),
{
    let behind = digits.push(mark);
    no_decimal_with_a_letter(behind, N::signed(), digits.len() as int);
    lowered_hex_digits(digits);
    assert(lowered(behind).drop_last() =~= lowered(digits));
}

/// Reading the same bytes twice gives the same outcome.
pub proof fn reading_repeats<T: FromBuf>(
    buf: Seq<u8>,
    first: Result<T, FromBufError<T::Error>>,
    second: Result<T, FromBufError<T::Error>>,
)
    requires
        outcome(first) == T::read(buf),
        outcome(second) == T::read(buf),
    ensures
        outcome(first) == outcome(second),
{
}

proof fn trim_start_keeps_an_end(s: Seq<char>)
    ensures
        trim_start(s).len() <= s.len(),
        trim_start(s) == s.skip(s.len() - trim_start(s).len()),
        trim_start(s).len() > 0 ==> !white_space(trim_start(s).first()),
    decreases s.len(),
{
    if s.len() > 0 && white_space(s.first()) {
        trim_start_keeps_an_end(s.drop_first());
    }
}

proof fn trim_end_keeps_a_start(s: Seq<char>)
    ensures
        trim_end(s).len() <= s.len(),
        trim_end(s) == s.take(trim_end(s).len() as int),
        trim_end(s).len() > 0 ==> !white_space(trim_end(s).last()),
    decreases s.len(),
{
    if s.len() > 0 && white_space(s.last()) {
        trim_end_keeps_a_start(s.drop_last());
    }
}

/// Trimmed text neither starts nor ends with white space.
pub proof fn trimmed_has_clean_ends(s: Seq<char>)
    ensures
        trimmed(s).len() > 0 ==> !white_space(trimmed(s).first()) && !white_space(
            trimmed(s).last(),
        ),
{
    trim_start_keeps_an_end(s);
    trim_end_keeps_a_start(trim_start(s));
}

/// Trimming what is trimmed changes nothing.
pub proof fn trimming_twice_is_trimming_once(s: Seq<char>)
    ensures
        trimmed(trimmed(s)) == trimmed(s),
{
    trimmed_has_clean_ends(s);
}

proof fn kept_are_trimmed(parts: Seq<Seq<char>>, at: int)
    requires
        0 <= at < kept(parts).len(),
    ensures
        kept(parts)[at].len() > 0,
        trimmed(kept(parts)[at]) == kept(parts)[at],
    decreases parts.len(),
{
    reveal(Seq::filter);
    if parts.len() > 0 {
        let all = parts.map_values(|part: Seq<char>| trimmed(part));
        assert(all.drop_last() =~= parts.drop_last().map_values(|part: Seq<char>| trimmed(part)));
        if at < kept(parts.drop_last()).len() {
            kept_are_trimmed(parts.drop_last(), at);
        } else {
            trimming_twice_is_trimming_once(parts.last());
        }
    }
}

/// No token is empty, and none starts or ends with white space.
pub proof fn tokens_are_trimmed(s: Seq<char>, at: int)
    requires
        0 <= at < tokens_of(s).len(),
    ensures
        tokens_of(s)[at].len() > 0,
        trimmed(tokens_of(s)[at]) == tokens_of(s)[at],
{
    kept_are_trimmed(pieces(s), at);
}

/// The bytes of a token are read back as the token: a token read on its own
/// is neither refused as bytes nor trimmed any further.
pub proof fn token_reads_as_itself(s: Seq<char>, at: int)
    requires
        0 <= at < tokens_of(s).len(),
    ensures
        normalized(encode_utf8(tokens_of(s)[at])) == Some(tokens_of(s)[at]),
{
    broadcast use {vstd::utf8::encode_utf8_valid_utf8, vstd::utf8::encode_utf8_decode_utf8};

    tokens_are_trimmed(s, at);
}

/// Within a line of integers each token is read as `integer_of` reads text.
pub proof fn token_reads_as_an_integer<N: Integer>(s: Seq<char>, at: int)
    requires
        0 <= at < tokens_of(s).len(),
    ensures
        read_integer::<N>(encode_utf8(tokens_of(s)[at])) == integer_of::<N>(tokens_of(s)[at]),
{
    token_reads_as_itself(s, at);
}

proof fn read_each_reads_on<T: FromBuf>(tokens: Seq<Seq<char>>, upto: int)
    requires
        0 <= upto <= tokens.len(),
        forall|i: int| 0 <= i < upto ==> T::read(encode_utf8(#[trigger] tokens[i])) is Ok,
    ensures
        read_each::<T>(tokens.take(upto)) is Ok,
    decreases upto,
{
    if upto > 0 {
        read_each_reads_on::<T>(tokens, upto - 1);
        assert(tokens.take(upto).drop_last() =~= tokens.take(upto - 1));
        assert(tokens.take(upto).last() == tokens[upto - 1]);
    }
}

/// The first token that is refused decides: the line is refused for what
/// that token was refused for, whatever stands behind it.
pub proof fn first_refusal_decides<T: FromBuf>(tokens: Seq<Seq<char>>, at: int)
    requires
        0 <= at < tokens.len(),
        T::read(encode_utf8(tokens[at])) is Err,
        forall|i: int| 0 <= i < at ==> T::read(encode_utf8(#[trigger] tokens[i])) is Ok,
    ensures
        read_each::<T>(tokens) == Err::<Seq<T::V>, FromBufError<T::Error>>(
            T::read(encode_utf8(tokens[at]))->Err_0,
        ),
{
    read_each_reads_on::<T>(tokens, at);
    assert(tokens.take(at + 1).drop_last() =~= tokens.take(at));
    assert(tokens.take(at + 1).last() == tokens[at]);
    read_each_stays_refused::<T>(tokens, at + 1);
}

/// What `classify` tells is well-formed: a radix of 2, 8 or 16 and digits of
/// that notation only.
pub proof fn classified_is_well_formed(text: Seq<char>)
    ensures
        classify(text) matches Some(found) ==> found.well_formed(),
{
}

/// Where every token is read, there is one value to each token, in the
/// tokens' order.
pub proof fn values_follow_tokens<T: FromBuf>(tokens: Seq<Seq<char>>, values: Seq<T::V>)
    requires
        read_each::<T>(tokens) == Ok::<Seq<T::V>, FromBufError<T::Error>>(values),
    ensures
        values.len() == tokens.len(),
        forall|i: int|
            0 <= i < tokens.len() ==> T::read(encode_utf8(#[trigger] tokens[i])) == Ok::<
                T::V,
                FromBufError<T::Error>,
            >(values[i]),
    decreases tokens.len(),
{
    if tokens.len() > 0 {
        let before = read_each::<T>(tokens.drop_last())->Ok_0;
        values_follow_tokens::<T>(tokens.drop_last(), before);
        assert forall|i: int| 0 <= i < tokens.len() implies T::read(
            encode_utf8(#[trigger] tokens[i]),
        ) == Ok::<T::V, FromBufError<T::Error>>(values[i]) by {
            if i < tokens.len() - 1 {
                assert(tokens.drop_last()[i] == tokens[i]);
            }
        }
    }
}

} // verus!
