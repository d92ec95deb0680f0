//! The sprite sheet: which of its sprites each part of the picture uses.

use vstd::prelude::*;

verus! {

/// The sprites of the sheet, in the order in which the sheet holds them.
#[derive(Clone, Copy, PartialEq, Eq, Hash, Debug, Structural)]
pub enum SpriteIndex {
    /// A block of a piece.
    Block,
    /// The upper end of a wall.
    Top,
    /// The body of a wall.
    Wall,
    /// The lower end of a wall.
    Bottom,
}

impl SpriteIndex {
    /// Position of the sprite in the sheet, counted from 0.
    pub open spec fn spec_index(self) -> int {
        match self {
            SpriteIndex::Block => 0,
            SpriteIndex::Top => 1,
            SpriteIndex::Wall => 2,
            SpriteIndex::Bottom => 3,
        }
    }

    /// Position of the sprite in the sheet, counted from 0.
    #[inline]
    pub fn index(&self) -> (i: usize)
        ensures
            i == self.spec_index(),
    {
        match self {
            SpriteIndex::Block => 0,
            SpriteIndex::Top => 1,
            SpriteIndex::Wall => 2,
            SpriteIndex::Bottom => 3,
        }
    }
}

} // verus!
