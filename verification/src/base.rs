use crate::text::{lower, lowered, text_of};
use vstd::prelude::*;

verus! {

/// An integer literal in binary, octal or hexadecimal notation: its digits,
/// in lower case, without the mark that told the notation.
#[derive(Debug)]
pub enum Base {
    Binary(String),
    Octal(String),
    Hex(String),
}

/// What a `Base` stands for: a radix of 2, 8 or 16, and the digits.
pub struct Literal {
    pub radix: int,
    pub digits: Seq<char>,
}

impl View for Base {
    type V = Literal;

    open spec fn view(&self) -> Literal {
        match self {
            Base::Binary(digits) => Literal { radix: 2, digits: digits@ },
            Base::Octal(digits) => Literal { radix: 8, digits: digits@ },
            Base::Hex(digits) => Literal { radix: 16, digits: digits@ },
        }
    }
}

/// A binary digit.
pub open spec fn binary_digit(c: char) -> bool {
    c == '0' || c == '1'
}

/// An octal digit.
pub open spec fn octal_digit(c: char) -> bool {
    '0' <= c <= '7'
}

/// A hexadecimal digit in lower case.
pub open spec fn hex_digit(c: char) -> bool {
    '0' <= c <= '9' || 'a' <= c <= 'f'
}

/// A decimal digit.
pub open spec fn decimal_digit(c: char) -> bool {
    '0' <= c <= '9'
}

/// Whether `c` is a digit of the notation with this radix.
pub open spec fn digit_in(radix: int, c: char) -> bool {
    if radix == 2 {
        binary_digit(c)
    } else if radix == 8 {
        octal_digit(c)
    } else if radix == 10 {
        decimal_digit(c)
    } else {
        radix == 16 && hex_digit(c)
    }
}

/// Whether every character of `s` is a digit of the notation with this radix.
pub open spec fn digits_in(radix: int, s: Seq<char>) -> bool {
    forall|i: int| 0 <= i < s.len() ==> digit_in(radix, #[trigger] s[i])
}

/// The number that a digit stands for; letters count from ten, in either case.
pub open spec fn digit_value(c: char) -> int {
    if '0' <= c <= '9' {
        c as int - '0' as int
    } else if 'a' <= c <= 'f' {
        c as int - 'a' as int + 10
    } else if 'A' <= c <= 'F' {
        c as int - 'A' as int + 10
    } else {
        0
    }
}

/// The number that `digits` write in the notation with this radix; zero for
/// no digits.
pub open spec fn number_in(radix: int, digits: Seq<char>) -> int
    decreases digits.len(),
{
    if digits.len() == 0 {
        0
    } else {
        number_in(radix, digits.drop_last()) * radix + digit_value(digits.last())
    }
}

impl Literal {
    /// Every digit belongs to the notation.
    pub open spec fn well_formed(self) -> bool {
        &&& self.radix == 2 || self.radix == 8 || self.radix == 16
        &&& digits_in(self.radix, self.digits)
    }

    /// The number that the literal writes, however large.
    pub open spec fn number(self) -> int {
        number_in(self.radix, self.digits)
    }
}

/// The literal with these digits, if they all belong to the notation.
pub open spec fn literal(radix: int, digits: Seq<char>) -> Option<Literal> {
    if digits_in(radix, digits) {
        Some(Literal { radix, digits })
    } else {
        None
    }
}

/// The notation that the marks of `text` tell, and the digits beside the
/// mark. The marks are tried in a fixed order, without regard to case: `0b`
/// in front, `b` behind, `0x` in front, `h` behind, `0o` in front. Only the
/// first mark found is followed: if the rest is not made of that notation's
/// digits, `text` is no literal.
pub open spec fn classify(text: Seq<char>) -> Option<Literal> {
    let t = lowered(text);
    if t.len() >= 2 && t[0] == '0' && t[1] == 'b' {
        literal(2, t.skip(2))
    } else if t.len() >= 1 && t.last() == 'b' {
        literal(2, t.drop_last())
    } else if t.len() >= 2 && t[0] == '0' && t[1] == 'x' {
        literal(16, t.skip(2))
    } else if t.len() >= 1 && t.last() == 'h' {
        literal(16, t.drop_last())
    } else if t.len() >= 2 && t[0] == '0' && t[1] == 'o' {
        literal(8, t.skip(2))
    } else {
        None
    }
}

proof fn digits_in_push(radix: int, s: Seq<char>, c: char)
    ensures
        digits_in(radix, s.push(c)) == (digits_in(radix, s) && digit_in(radix, c)),
{
    let longer = s.push(c);
    if digits_in(radix, longer) {
        assert forall|i: int| 0 <= i < s.len() implies digit_in(radix, #[trigger] s[i]) by {
            assert(s[i] == longer[i]);
        }
        assert(longer[s.len() as int] == c);
    }
}

/// Whether `value` is made of the digits `0` and `1` alone.
pub fn is_binary(value: &str) -> (out: bool)
    ensures
        out == digits_in(2, value@),
{
    let mut out = true;
    for c in it: value.chars()
        invariant
            it.seq() == value@,
            out == digits_in(2, value@.take(it.index())),
    {
        proof {
            digits_in_push(2, value@.take(it.index()), c);
            assert(value@.take(it.index() + 1) =~= value@.take(it.index()).push(c));
        }
        if c != '0' && c != '1' {
            out = false;
        }
    }
    proof {
        assert(value@.take(value@.len() as int) =~= value@);
    }
    out
}

/// Whether `value` is made of the digits `0` to `7` alone.
pub fn is_oct(value: &str) -> (out: bool)
    ensures
        out == digits_in(8, value@),
{
    let mut out = true;
    for c in it: value.chars()
        invariant
            it.seq() == value@,
            out == digits_in(8, value@.take(it.index())),
    {
        proof {
            digits_in_push(8, value@.take(it.index()), c);
            assert(value@.take(it.index() + 1) =~= value@.take(it.index()).push(c));
        }
        if !('0' <= c && c <= '7') {
            out = false;
        }
    }
    proof {
        assert(value@.take(value@.len() as int) =~= value@);
    }
    out
}

/// Whether `value` is made of the digits `0` to `9` and `a` to `f` alone.
pub fn is_hex(value: &str) -> (out: bool)
    ensures
        out == digits_in(16, value@),
{
    let mut out = true;
    for c in it: value.chars()
        invariant
            it.seq() == value@,
            out == digits_in(16, value@.take(it.index())),
    {
        proof {
            digits_in_push(16, value@.take(it.index()), c);
            assert(value@.take(it.index() + 1) =~= value@.take(it.index()).push(c));
        }
        if !(('0' <= c && c <= '9') || ('a' <= c && c <= 'f')) {
            out = false;
        }
    }
    proof {
        assert(value@.take(value@.len() as int) =~= value@);
    }
    out
}

/// The number that the hexadecimal digit with ASCII code `byte` stands for.
pub fn to_hex(byte: u8) -> (out: i32)
    requires
        hex_digit(byte as char) || 'A' <= byte as char <= 'F',
    ensures
        out == digit_value(byte as char),
{
    let c = byte as char;
    if '0' <= c && c <= '9' {
        (byte - '0' as u8) as i32
    } else if 'a' <= c && c <= 'f' {
        (byte - 'a' as u8 + 10) as i32
    } else {
        (byte - 'A' as u8 + 10) as i32
    }
}

impl Base {
    /// Tells the notation of `value` by its mark and takes the digits.
    pub fn new(value: &str) -> (out: Option<Base>)
        ensures
            match out {
                Some(base) => classify(value@) == Some(base@) && base@.well_formed(),
                None => classify(value@) is None,
            },
    {
        let chars = lower(value);
        let n: usize = chars.len();
        if n >= 2 && chars[0] == '0' && chars[1] == 'b' {
            let digits = text_of(&chars, 2, n);
            if is_binary(digits.as_str()) {
                Some(Base::Binary(digits))
            } else {
                None
            }
        } else if n >= 1 && chars[n - 1] == 'b' {
            let digits = text_of(&chars, 0, n - 1);
            if is_binary(digits.as_str()) {
                Some(Base::Binary(digits))
            } else {
                None
            }
        } else if n >= 2 && chars[0] == '0' && chars[1] == 'x' {
            let digits = text_of(&chars, 2, n);
            if is_hex(digits.as_str()) {
                Some(Base::Hex(digits))
            } else {
                None
            }
        } else if n >= 1 && chars[n - 1] == 'h' {
            let digits = text_of(&chars, 0, n - 1);
            if is_hex(digits.as_str()) {
                Some(Base::Hex(digits))
            } else {
                None
            }
        } else if n >= 2 && chars[0] == '0' && chars[1] == 'o' {
            let digits = text_of(&chars, 2, n);
            if is_oct(digits.as_str()) {
                Some(Base::Octal(digits))
            } else {
                None
            }
        } else {
            None
        }
    }
}

} // verus!
