use vstd::prelude::*;

verus! {

/// A place in a source file: its path, its line and column (both counted
/// from one) and the text of that line.
#[derive(Clone, Debug, PartialEq)]
pub struct Position {
    pub path: String,
    pub line_number: usize,
    pub column_number: usize,
    pub line: String,
}

} // verus!
