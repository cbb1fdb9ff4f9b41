//! The layout of the three by three board on the screen.

use crate::board::{Pos, TTTBoard};
use crate::display::util::{grid_lines, row_of_cells, row_of_rules, shows, Look, Span};
use vstd::prelude::*;

verus! {

/// The lines on the screen for an empty board of `size` rows and columns,
/// with an `x` in every cell.
pub fn generate_empty_board(size: u8) -> (text: Vec<Vec<Span>>)
    ensures
        shows(
            text@,
            grid_lines(size as int, size as int, |i: int, j: int| 'x', Look::Plain, Look::Plain),
        ),
{
    crate::display::util::generate_empty_board(size)
}

/// The lines on the screen for `board`, each cell with the letter of its
/// holder.
pub fn generate_board(board: TTTBoard) -> (text: Vec<Vec<Span>>)
    ensures
        shows(
            text@,
            grid_lines(
                3,
                3,
                |i: int, j: int| board.pieces[i][j].letter(),
                Look::Plain,
                Look::Plain,
            ),
        ),
{
    let size = TTTBoard::size();
    let ghost want = grid_lines(
        3,
        3,
        |i: int, j: int| board.pieces[i][j].letter(),
        Look::Plain,
        Look::Plain,
    );
    let mut text: Vec<Vec<Span>> = Vec::new();
    let mut i: u8 = 0;
    while i < size
        invariant
            i <= size,
            size == 3,
            want == grid_lines(
                3,
                3,
                |i: int, j: int| board.pieces[i][j].letter(),
                Look::Plain,
                Look::Plain,
            ),
            text@.len() == if i == 0 {
                0int
            } else {
                2 * i - 1
            },
            forall|k: int| 0 <= k < text@.len() ==> (#[trigger] text@[k])@ == want[k],
        decreases size - i,
    {
        if i > 0 {
            let rule = row_of_rules(size as usize, Look::Plain);
            text.push(rule);
        }
        let mut chars: Vec<char> = Vec::new();
        let mut j: u8 = 0;
        while j < size
            invariant
                i < 3,
                j <= size,
                size == 3,
                chars@.len() == j,
                forall|c: int|
                    0 <= c < j ==> #[trigger] chars@[c] == board.pieces[i as int][c].letter(),
            decreases size - j,
        {
            let ch = board.pieces[i as usize][j as usize].to_char();
            chars.push(ch);
            j += 1;
        }
        let line = row_of_cells(&chars, Look::Plain, Look::Plain);
        text.push(line);
        i += 1;
    }
    text
}

/// The cell that the screen position in column `col` and row `row` falls
/// into, or `None` if the position lies on a line of the grid. Rows of cells
/// stand on the odd rows of the screen, and each cell is four columns wide,
/// the first of them a line. Row and column of the cell are cut down to
/// eight bits.
pub fn get_pos(col: u16, row: u16) -> (p: Option<Pos>)
    ensures
        p == if row % 2 == 1 && col % 4 != 0 {
            Some(Pos((((row - 1) / 2) as u16) as i8, ((col / 4) as u16) as i8))
        } else {
            None
        },
{
    let mut p = None;
    if row % 2 == 1 && col % 4 != 0 {
        let x = (row - 1) / 2;
        let y = col / 4;
        p = Some(Pos(#[verifier::truncate] (x as i8), #[verifier::truncate] (y as i8)));
    }
    p
}

} // verus!
