use vstd::prelude::*;

pub mod atom;
pub mod base;
pub mod convert;
pub mod integer;
pub mod laws;
pub mod signed;
pub mod text;
pub mod unsigned;

verus! {

/// `std::io::Error`, carried through unread.
#[verifier::external_type_specification]
#[verifier::external_body]
pub struct ExIoError(std::io::Error);

/// Why a line of bytes gave no value.
#[derive(Debug)]
pub enum FromBufError<T> {
    /// The text is no literal of the wanted type; holds what the type's own
    /// parser said of it.
    ConvertError(T),
    /// The line could not be read.
    IoError(std::io::Error),
    /// The bytes are not well-formed UTF-8.
    InvalidUtf8String,
    /// Nothing is left of the text once it is trimmed.
    Empty,
}

impl<T> From<std::io::Error> for FromBufError<T> {
    fn from(value: std::io::Error) -> (out: Self) {
        FromBufError::IoError(value)
    }
}

impl<T> vstd::std_specs::convert::FromSpecImpl<std::io::Error> for FromBufError<T> {
    open spec fn obeys_from_spec() -> bool {
        true
    }

    open spec fn from_spec(value: std::io::Error) -> Self {
        FromBufError::IoError(value)
    }
}

impl<T: std::fmt::Display> FromBufError<T> {
    /// The error in words: what the parser or the reader said, or the
    /// variant's own name.
    pub fn message(&self) -> (out: String)
        ensures
            match self {
                FromBufError::ConvertError(error) => vstd::string::to_string_from_display_ensures(
                    error,
                    out,
                ),
                FromBufError::IoError(error) => vstd::string::to_string_from_display_ensures(
                    error,
                    out,
                ),
                FromBufError::InvalidUtf8String => out@ == "InvalidUtf8String"@,
                FromBufError::Empty => out@ == "Empty"@,
            },
    {
        match self {
            FromBufError::ConvertError(error) => error.to_string(),
            FromBufError::IoError(error) => error.to_string(),
            FromBufError::InvalidUtf8String => "InvalidUtf8String".to_owned(),
            FromBufError::Empty => "Empty".to_owned(),
        }
    }
}

/// `out` with the value, if it holds one, replaced by what it stands for.
pub open spec fn outcome<T: DeepView, E>(out: Result<T, FromBufError<E>>) -> Result<
    T::V,
    FromBufError<E>,
> {
    match out {
        Ok(value) => Ok(value.deep_view()),
        Err(error) => Err(error),
    }
}

/// A type whose values can be read from a line of bytes.
pub trait FromBuf: Sized + DeepView {
    /// What the type's own parser says of a text that it refuses.
    type Error;

    /// What the bytes `buf` stand for, or why they stand for nothing.
    spec fn read(buf: Seq<u8>) -> Result<Self::V, FromBufError<Self::Error>>;

    /// Reads the bytes of one line as a value of the type.
    fn from_buf(buf: Vec<u8>) -> (out: Result<Self, FromBufError<Self::Error>>)
        ensures
            outcome(out) == Self::read(buf@),
    ;
}

} // verus!
