use crate::atom::AtomVec;
use crate::text::{chars_of, normalize, normalized, text_of, tokens, tokens_of};
use crate::{outcome, FromBuf, FromBufError};
use vstd::prelude::*;
use vstd::string::StrSliceExecFns;
use vstd::utf8::encode_utf8;

verus! {

impl FromBuf for String {
    type Error = ();

    /// The trimmed text, wherever the bytes are text at all.
    open spec fn read(buf: Seq<u8>) -> Result<Seq<char>, FromBufError<()>> {
        match normalized(buf) {
            Some(text) => Ok(text),
            None => Err(FromBufError::InvalidUtf8String),
        }
    }

    fn from_buf(buf: Vec<u8>) -> (out: Result<Self, FromBufError<Self::Error>>) {
        match normalize(buf) {
            Some(chars) => {
                proof {
                    assert(chars@.subrange(0, chars@.len() as int) =~= chars@);
                }
                Ok(text_of(&chars, 0, chars.len()))
            },
            None => Err(FromBufError::InvalidUtf8String),
        }
    }
}

impl FromBuf for Vec<u8> {
    type Error = ();

    /// The bytes themselves, untrimmed, text or not.
    open spec fn read(buf: Seq<u8>) -> Result<Seq<u8>, FromBufError<()>> {
        Ok(buf)
    }

    fn from_buf(buf: Vec<u8>) -> (out: Result<Self, FromBufError<Self::Error>>) {
        proof {
            assert(buf.deep_view() =~= buf@);
        }
        Ok(buf)
    }
}

impl FromBuf for char {
    type Error = ();

    /// The first character of the trimmed text; what follows it is ignored.
    open spec fn read(buf: Seq<u8>) -> Result<char, FromBufError<()>> {
        match normalized(buf) {
            Some(text) => if text.len() == 0 {
                Err(FromBufError::Empty)
            } else {
                Ok(text.first())
            },
            None => Err(FromBufError::InvalidUtf8String),
        }
    }

    fn from_buf(buf: Vec<u8>) -> (out: Result<Self, FromBufError<Self::Error>>) {
        match normalize(buf) {
            Some(chars) => if chars.len() == 0 {
                Err(FromBufError::Empty)
            } else {
                Ok(chars[0])
            },
            None => Err(FromBufError::InvalidUtf8String),
        }
    }
}

impl FromBuf for Vec<char> {
    type Error = ();

    /// The characters of the trimmed text, spaces within it included.
    open spec fn read(buf: Seq<u8>) -> Result<Seq<char>, FromBufError<()>> {
        match normalized(buf) {
            Some(text) => if text.len() == 0 {
                Err(FromBufError::Empty)
            } else {
                Ok(text)
            },
            None => Err(FromBufError::InvalidUtf8String),
        }
    }

    fn from_buf(buf: Vec<u8>) -> (out: Result<Self, FromBufError<Self::Error>>) {
        match normalize(buf) {
            Some(chars) => if chars.len() == 0 {
                Err(FromBufError::Empty)
            } else {
                proof {
                    assert(chars.deep_view() =~= chars@);
                }
                Ok(chars)
            },
            None => Err(FromBufError::InvalidUtf8String),
        }
    }
}

/// What the tokens stand for, each read on its own as a `T`: the values in
/// the tokens' order, or what the first token that is no `T` was refused for.
pub open spec fn read_each<T: FromBuf>(tokens: Seq<Seq<char>>) -> Result<
    Seq<T::V>,
    FromBufError<T::Error>,
>
    decreases tokens.len(),
{
    if tokens.len() == 0 {
        Ok(Seq::empty())
    } else {
        match read_each::<T>(tokens.drop_last()) {
            Ok(values) => match T::read(encode_utf8(tokens.last())) {
                Ok(value) => Ok(values.push(value)),
                Err(error) => Err(error),
            },
            Err(error) => Err(error),
        }
    }
}

/// Once a token is refused, the tokens behind it change nothing.
pub proof fn read_each_stays_refused<T: FromBuf>(tokens: Seq<Seq<char>>, upto: int)
    requires
        0 <= upto <= tokens.len(),
        read_each::<T>(tokens.take(upto)) is Err,
    ensures
        read_each::<T>(tokens) == read_each::<T>(tokens.take(upto)),
    decreases tokens.len() - upto,
{
    if upto < tokens.len() {
        assert(tokens.take(upto + 1).drop_last() =~= tokens.take(upto));
        read_each_stays_refused::<T>(tokens, upto + 1);
    } else {
        assert(tokens.take(upto) =~= tokens);
    }
}

/// Reads the tokens of trimmed text, each as a `T`, up to the first that is
/// none.
pub fn parse_sequence<T: AtomVec>(text: &str) -> (out: Result<Vec<T>, FromBufError<T::Error>>)
    ensures
        outcome(out) == read_each::<T>(tokens_of(text@)),
{
    let chars = chars_of(text);
    let items = tokens(&chars);
    let ghost all = tokens_of(text@);
    let mut values: Vec<T> = Vec::new();
    let mut at: usize = 0;
    proof {
        assert(values.deep_view() =~= Seq::<T::V>::empty());
    }
    while at < items.len()
        invariant
            at <= items@.len(),
            all == tokens_of(text@),
            items.deep_view() == all,
            read_each::<T>(all.take(at as int)) == Ok::<Seq<T::V>, FromBufError<T::Error>>(
                values.deep_view(),
            ),
        decreases items@.len() - at,
    {
        proof {
            assert(all.take(at + 1).drop_last() =~= all.take(at as int));
        }
        match T::from_buf(items[at].as_str().as_bytes_vec()) {
            Ok(value) => {
                let ghost before = values.deep_view();
                values.push(value);
                proof {
                    assert(values.deep_view() =~= before.push(value.deep_view()));
                }
            },
            Err(error) => {
                proof {
                    read_each_stays_refused::<T>(all, at + 1);
                }
                return Err(error);
            },
        }
        at += 1;
    }
    proof {
        assert(all.take(at as int) =~= all);
    }
    Ok(values)
}

impl<T: AtomVec> FromBuf for Vec<T> {
    type Error = T::Error;

    /// What the tokens of the trimmed text stand for, each read as a `T`.
    open spec fn read(buf: Seq<u8>) -> Result<Seq<T::V>, FromBufError<T::Error>> {
        match normalized(buf) {
            Some(text) => read_each::<T>(tokens_of(text)),
            None => Err(FromBufError::InvalidUtf8String),
        }
    }

    fn from_buf(buf: Vec<u8>) -> (out: Result<Self, FromBufError<Self::Error>>) {
        match String::from_buf(buf) {
            Ok(text) => parse_sequence(text.as_str()),
            Err(_) => Err(FromBufError::InvalidUtf8String),
        }
    }
}

} // verus!
