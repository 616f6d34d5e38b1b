use crate::FromBuf;
use vstd::prelude::*;

verus! {

/// A type read from a whole line: one value to the line.
pub trait Atom: FromBuf {

}

/// A type of which one line can hold several values, with spaces between
/// them. Bytes and characters are none: a line of those is read whole.
pub trait AtomVec: FromBuf {

}

impl Atom for i8 {

}

impl Atom for i16 {

}

impl Atom for i32 {

}

impl Atom for isize {

}

impl Atom for i64 {

}

impl Atom for i128 {

}

impl Atom for u8 {

}

impl Atom for u16 {

}

impl Atom for u32 {

}

impl Atom for usize {

}

impl Atom for u64 {

}

impl Atom for u128 {

}

impl Atom for char {

}

impl Atom for String {

}

impl AtomVec for i8 {

}

impl AtomVec for i16 {

}

impl AtomVec for i32 {

}

impl AtomVec for isize {

}

impl AtomVec for i64 {

}

impl AtomVec for i128 {

}

impl AtomVec for u16 {

}

impl AtomVec for u32 {

}

impl AtomVec for usize {

}

impl AtomVec for u64 {

}

impl AtomVec for u128 {

}

impl AtomVec for String {

}

} // verus!
