use vstd::prelude::*;

verus! {

/// One of the four cardinal directions a bar can grow in.  The direction
/// selects the polarity of the partial glyphs and ties the logical cell
/// index to a physical screen coordinate.
#[derive(Copy, Clone, PartialEq, Eq, Structural, Debug)]
pub enum Direction {
    Right,
    Up,
    Left,
    Down,
}

} // verus!
