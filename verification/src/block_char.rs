use crate::direction::Direction;
use crate::remainder::Remainder;
use vstd::prelude::*;

verus! {

/// A block-element glyph a bar cell can show: a blank cell,
/// seven right-growing partials, seven up-growing partials, seven
/// left-growing partials, seven down-growing partials, and a full cell.
#[derive(Copy, Clone, PartialEq, Eq, Structural, Debug)]
pub enum BlockChar {
    NL,
    R1,
    R2,
    R3,
    R4,
    R5,
    R6,
    R7,
    U1,
    U2,
    U3,
    U4,
    U5,
    U6,
    U7,
    L1,
    L2,
    L3,
    L4,
    L5,
    L6,
    L7,
    D1,
    D2,
    D3,
    D4,
    D5,
    D6,
    D7,
    FF,
}

impl BlockChar {
    /// True exactly for the 14 left- and down-growing partial glyphs.
    /// Unicode defines those glyphs as "space remaining at the far edge",
    /// so drawing them as "filled from the near edge" requires the
    /// complementary glyph with foreground and background ink swapped.
    pub open spec fn spec_needs_inversion(self) -> bool {
        match self {
            BlockChar::L1 => true,
            BlockChar::L2 => true,
            BlockChar::L3 => true,
            BlockChar::L4 => true,
            BlockChar::L5 => true,
            BlockChar::L6 => true,
            BlockChar::L7 => true,
            BlockChar::D1 => true,
            BlockChar::D2 => true,
            BlockChar::D3 => true,
            BlockChar::D4 => true,
            BlockChar::D5 => true,
            BlockChar::D6 => true,
            BlockChar::D7 => true,
            _ => false,
        }
    }

    /// The glyph chosen for a sub-cell fill amount growing in a given
    /// direction.  A zero fill is blank whatever the direction.
    pub open spec fn spec_select(rem: Remainder, dir: Direction) -> BlockChar {
        match (rem, dir) {
            (Remainder::E0, _) => BlockChar::NL,
            (Remainder::E1, Direction::Right) => BlockChar::R1,
            (Remainder::E2, Direction::Right) => BlockChar::R2,
            (Remainder::E3, Direction::Right) => BlockChar::R3,
            (Remainder::E4, Direction::Right) => BlockChar::R4,
            (Remainder::E5, Direction::Right) => BlockChar::R5,
            (Remainder::E6, Direction::Right) => BlockChar::R6,
            (Remainder::E7, Direction::Right) => BlockChar::R7,
            (Remainder::E1, Direction::Up) => BlockChar::U1,
            (Remainder::E2, Direction::Up) => BlockChar::U2,
            (Remainder::E3, Direction::Up) => BlockChar::U3,
            (Remainder::E4, Direction::Up) => BlockChar::U4,
            (Remainder::E5, Direction::Up) => BlockChar::U5,
            (Remainder::E6, Direction::Up) => BlockChar::U6,
            (Remainder::E7, Direction::Up) => BlockChar::U7,
            (Remainder::E1, Direction::Left) => BlockChar::L1,
            (Remainder::E2, Direction::Left) => BlockChar::L2,
            (Remainder::E3, Direction::Left) => BlockChar::L3,
            (Remainder::E4, Direction::Left) => BlockChar::L4,
            (Remainder::E5, Direction::Left) => BlockChar::L5,
            (Remainder::E6, Direction::Left) => BlockChar::L6,
            (Remainder::E7, Direction::Left) => BlockChar::L7,
            (Remainder::E1, Direction::Down) => BlockChar::D1,
            (Remainder::E2, Direction::Down) => BlockChar::D2,
            (Remainder::E3, Direction::Down) => BlockChar::D3,
            (Remainder::E4, Direction::Down) => BlockChar::D4,
            (Remainder::E5, Direction::Down) => BlockChar::D5,
            (Remainder::E6, Direction::Down) => BlockChar::D6,
            (Remainder::E7, Direction::Down) => BlockChar::D7,
        }
    }

    /// The display character of this glyph.  Right-growing glyph `k` and
    /// left-growing glyph `8 - k` share one character, and likewise the
    /// up- and down-growing pairs.
    pub open spec fn spec_char(self) -> char {
        match self {
            BlockChar::NL => ' ',
            BlockChar::R1 => '\u{258f}',
            BlockChar::L7 => '\u{258f}',
            BlockChar::R2 => '\u{258e}',
            BlockChar::L6 => '\u{258e}',
            BlockChar::R3 => '\u{258d}',
            BlockChar::L5 => '\u{258d}',
            BlockChar::R4 => '\u{258c}',
            BlockChar::L4 => '\u{258c}',
            BlockChar::R5 => '\u{258b}',
            BlockChar::L3 => '\u{258b}',
            BlockChar::R6 => '\u{258a}',
            BlockChar::L2 => '\u{258a}',
            BlockChar::R7 => '\u{2589}',
            BlockChar::L1 => '\u{2589}',
            BlockChar::U1 => '\u{2581}',
            BlockChar::D7 => '\u{2581}',
            BlockChar::U2 => '\u{2582}',
            BlockChar::D6 => '\u{2582}',
            BlockChar::U3 => '\u{2583}',
            BlockChar::D5 => '\u{2583}',
            BlockChar::U4 => '\u{2584}',
            BlockChar::D4 => '\u{2584}',
            BlockChar::U5 => '\u{2585}',
            BlockChar::D3 => '\u{2585}',
            BlockChar::U6 => '\u{2586}',
            BlockChar::D2 => '\u{2586}',
            BlockChar::U7 => '\u{2587}',
            BlockChar::D1 => '\u{2587}',
            BlockChar::FF => '\u{2588}',
        }
    }

    /// Whether drawing this glyph needs foreground and background swapped.
    pub fn needs_inversion(&self) -> (r: bool)
        ensures
            r == self.spec_needs_inversion(),
    {
        match *self {
            BlockChar::L1 => true,
            BlockChar::L2 => true,
            BlockChar::L3 => true,
            BlockChar::L4 => true,
            BlockChar::L5 => true,
            BlockChar::L6 => true,
            BlockChar::L7 => true,
            BlockChar::D1 => true,
            BlockChar::D2 => true,
            BlockChar::D3 => true,
            BlockChar::D4 => true,
            BlockChar::D5 => true,
            BlockChar::D6 => true,
            BlockChar::D7 => true,
            _ => false,
        }
    }

    /// The glyph for a sub-cell fill amount growing in a given direction.
    pub fn select(rem: Remainder, dir: Direction) -> (r: BlockChar)
        ensures
            r == BlockChar::spec_select(rem, dir),
    {
        match (rem, dir) {
            (Remainder::E0, _) => BlockChar::NL,
            (Remainder::E1, Direction::Right) => BlockChar::R1,
            (Remainder::E2, Direction::Right) => BlockChar::R2,
            (Remainder::E3, Direction::Right) => BlockChar::R3,
            (Remainder::E4, Direction::Right) => BlockChar::R4,
            (Remainder::E5, Direction::Right) => BlockChar::R5,
            (Remainder::E6, Direction::Right) => BlockChar::R6,
            (Remainder::E7, Direction::Right) => BlockChar::R7,
            (Remainder::E1, Direction::Up) => BlockChar::U1,
            (Remainder::E2, Direction::Up) => BlockChar::U2,
            (Remainder::E3, Direction::Up) => BlockChar::U3,
            (Remainder::E4, Direction::Up) => BlockChar::U4,
            (Remainder::E5, Direction::Up) => BlockChar::U5,
            (Remainder::E6, Direction::Up) => BlockChar::U6,
            (Remainder::E7, Direction::Up) => BlockChar::U7,
            (Remainder::E1, Direction::Left) => BlockChar::L1,
            (Remainder::E2, Direction::Left) => BlockChar::L2,
            (Remainder::E3, Direction::Left) => BlockChar::L3,
            (Remainder::E4, Direction::Left) => BlockChar::L4,
            (Remainder::E5, Direction::Left) => BlockChar::L5,
            (Remainder::E6, Direction::Left) => BlockChar::L6,
            (Remainder::E7, Direction::Left) => BlockChar::L7,
            (Remainder::E1, Direction::Down) => BlockChar::D1,
            (Remainder::E2, Direction::Down) => BlockChar::D2,
            (Remainder::E3, Direction::Down) => BlockChar::D3,
            (Remainder::E4, Direction::Down) => BlockChar::D4,
            (Remainder::E5, Direction::Down) => BlockChar::D5,
            (Remainder::E6, Direction::Down) => BlockChar::D6,
            (Remainder::E7, Direction::Down) => BlockChar::D7,
        }
    }

    /// The display character of this glyph.
    pub fn to_char(&self) -> (r: char)
        ensures
            r == self.spec_char(),
    {
        match *self {
            BlockChar::NL => ' ',
            BlockChar::R1 => '\u{258f}',
            BlockChar::L7 => '\u{258f}',
            BlockChar::R2 => '\u{258e}',
            BlockChar::L6 => '\u{258e}',
            BlockChar::R3 => '\u{258d}',
            BlockChar::L5 => '\u{258d}',
            BlockChar::R4 => '\u{258c}',
            BlockChar::L4 => '\u{258c}',
            BlockChar::R5 => '\u{258b}',
            BlockChar::L3 => '\u{258b}',
            BlockChar::R6 => '\u{258a}',
            BlockChar::L2 => '\u{258a}',
            BlockChar::R7 => '\u{2589}',
            BlockChar::L1 => '\u{2589}',
            BlockChar::U1 => '\u{2581}',
            BlockChar::D7 => '\u{2581}',
            BlockChar::U2 => '\u{2582}',
            BlockChar::D6 => '\u{2582}',
            BlockChar::U3 => '\u{2583}',
            BlockChar::D5 => '\u{2583}',
            BlockChar::U4 => '\u{2584}',
            BlockChar::D4 => '\u{2584}',
            BlockChar::U5 => '\u{2585}',
            BlockChar::D3 => '\u{2585}',
            BlockChar::U6 => '\u{2586}',
            BlockChar::D2 => '\u{2586}',
            BlockChar::U7 => '\u{2587}',
            BlockChar::D1 => '\u{2587}',
            BlockChar::FF => '\u{2588}',
        }
    }
}

} // verus!
