//! A cell address in the document grid, used both for the cursor and for the
//! viewport's top-left offset: `x` is a grapheme column, `y` a row index.

use vstd::prelude::*;

verus! {

/// A grid position: grapheme column `x` in row `y`.
#[derive(Clone, Copy, Debug, PartialEq, Eq, Structural)]
pub struct Position {
    pub x: usize,
    pub y: usize,
}

impl Default for Position {
    /// The top-left corner.
    fn default() -> (p: Position)
        ensures
            p.x == 0 && p.y == 0,
    {
        Position { x: 0, y: 0 }
    }
}

} // verus!
