//! Grid-cell contents and their display colors.

use vstd::prelude::*;

verus! {

/// What a grid cell holds: nothing, or a collectible apple.
#[derive(Clone, Copy, PartialEq, Eq, Structural, Debug)]
pub enum Fruit {
    Empty,
    Apple,
}

impl Fruit {
    /// The packed ARGB display color of the cell content; an empty cell's
    /// color is the white base that the background gradient darkens.
    pub open spec fn color_spec(self) -> u32 {
        match self {
            Fruit::Empty => 0xFFFFFFFFu32,
            Fruit::Apple => 0xFFFF0000u32,
        }
    }

    /// Returns the packed ARGB display color.
    pub fn color(&self) -> (c: u32)
        ensures
            c == self.color_spec(),
    {
        match self {
            Fruit::Empty => 0xFFFFFFFF,
            Fruit::Apple => 0xFFFF0000,
        }
    }
}

} // verus!
