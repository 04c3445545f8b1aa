use vstd::prelude::*;

use crate::position::Position;

verus! {

/// A byte-string literal of the high-level intermediate representation,
/// with the position where it was written.
#[derive(Clone, Debug, PartialEq)]
pub struct ByteString {
    value: Vec<u8>,
    position: Position,
}

impl ByteString {
    /// The bytes of the literal.
    pub closed spec fn bytes(&self) -> Seq<u8> {
        self.value@
    }

    /// Where the literal stands in the source.
    pub closed spec fn place(&self) -> Position {
        self.position
    }

    pub fn new(value: Vec<u8>, position: Position) -> (res: Self)
        ensures
            res.bytes() == value@,
            res.place() == position,
    {
        Self { value, position }
    }

    pub fn value(&self) -> (res: &[u8])
        ensures
            res@ == self.bytes(),
    {
        self.value.as_slice()
    }

    pub fn position(&self) -> (res: &Position)
        ensures
            *res == self.place(),
    {
        &self.position
    }
}

} // verus!
