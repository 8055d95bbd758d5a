//! Values: what registers, array elements and hash slots hold.
use vstd::prelude::*;

verus! {

/// A value is either held in place or refers to an object of the heap.
/// Fractional numbers are held by their IEEE-754 bit pattern.
#[derive(Clone, Copy, Debug, PartialEq, Eq, Structural)]
pub enum Value {
    Undefined,
    Null,
    Bool(bool),
    Int(i64),
    Float(u64),
    Heap(u32),
}

} // verus!
