//! What a board shows of itself: a grid of characters, its size, and a line
//! of text for the log.

pub mod tui;
pub mod util;

use vstd::prelude::*;

verus! {

/// A board that can be shown.
pub trait Display {
    /// The board can be shown as it is.
    spec fn showable(&self) -> bool;

    /// The character that stands for the cell on row `r`, column `c`.
    spec fn glyph(&self, r: int, c: int) -> char;

    /// The numbers of rows and columns.
    spec fn size_spec(&self) -> (u8, u8);

    /// The board as rows of characters, one character for each cell.
    fn to_array(&self) -> (arr: Vec<Vec<char>>)
        requires
            self.showable(),
        ensures
            arr@.len() == self.size_spec().0,
            forall|r: int|
                0 <= r < arr@.len() ==> (#[trigger] arr@[r])@.len() == self.size_spec().1,
            forall|r: int, c: int|
                0 <= r < self.size_spec().0 && 0 <= c < self.size_spec().1
                    ==> (#[trigger] arr@[r]@[c]) == self.glyph(r, c),
    ;

    /// The numbers of rows and columns.
    fn size(&self) -> (s: (u8, u8))
        ensures
            s == self.size_spec(),
    ;

    /// A line of text about the state of the board, for the log.
    fn to_string(&self) -> String;
}

} // verus!
