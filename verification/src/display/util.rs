//! The layout of a board on the screen: cells in a grid of lines, and the
//! cell that a click on the screen falls into.

use super::Display;
use vstd::prelude::*;

verus! {

/// What one piece of a line on the screen shows.
#[derive(PartialEq, Eq, Structural, Copy, Clone, Debug)]
pub enum Glyph {
    /// One blank, at the start of a row of cells.
    Pad,
    /// The character of a cell.
    Cell(char),
    /// The upright line between two cells of a row, with a blank on either
    /// side.
    Bar,
    /// One stroke of the level line between two rows.
    Dash,
    /// The crossing of an upright line and a level line, with three strokes
    /// of the level line behind it.
    Cross,
}

/// How a piece of a line is drawn.
#[derive(PartialEq, Eq, Structural, Copy, Clone, Debug)]
pub enum Look {
    Plain,
    /// Dimmed, in the colour of the grid lines.
    Line,
    Bold,
}

/// One piece of a line on the screen.
#[derive(PartialEq, Eq, Structural, Copy, Clone, Debug)]
pub struct Span {
    pub glyph: Glyph,
    pub look: Look,
}

/// The piece number `k` of a row of `cols` cells: the pad, then the cells
/// with a bar between each two of them.
pub open spec fn cell_row_piece(
    k: int,
    cell: spec_fn(int) -> char,
    cells: Look,
    lines: Look,
) -> Span {
    if k == 0 {
        Span { glyph: Glyph::Pad, look: Look::Plain }
    } else if k % 2 == 1 {
        Span { glyph: Glyph::Cell(cell((k - 1) / 2)), look: cells }
    } else {
        Span { glyph: Glyph::Bar, look: lines }
    }
}

/// A row of `cols` cells on the screen.
pub open spec fn cell_row(
    cols: int,
    cell: spec_fn(int) -> char,
    cells: Look,
    lines: Look,
) -> Seq<Span> {
    Seq::new(
        (if cols > 0 {
            2 * cols
        } else {
            1
        }) as nat,
        |k: int| cell_row_piece(k, cell, cells, lines),
    )
}

/// The level line under a row of `cols` cells: three strokes, then a
/// crossing for each cell but the first.
pub open spec fn rule_row(cols: int, lines: Look) -> Seq<Span> {
    Seq::new(
        (if cols > 0 {
            cols + 2
        } else {
            3
        }) as nat,
        |k: int|
            if k < 3 {
                Span { glyph: Glyph::Dash, look: lines }
            } else {
                Span { glyph: Glyph::Cross, look: lines }
            },
    )
}

/// The lines on the screen for a board of `rows` rows and `cols` columns:
/// a row of cells for each row of the board, with a level line between each
/// two of them.
pub open spec fn grid_lines(
    rows: int,
    cols: int,
    cell: spec_fn(int, int) -> char,
    cells: Look,
    lines: Look,
) -> Seq<Seq<Span>> {
    Seq::new(
        (if rows > 0 {
            2 * rows - 1
        } else {
            0
        }) as nat,
        |i: int|
            if i % 2 == 0 {
                cell_row(cols, |j: int| cell(i / 2, j), cells, lines)
            } else {
                rule_row(cols, lines)
            },
    )
}

/// `text` holds the lines `lines`.
pub open spec fn shows(text: Seq<Vec<Span>>, lines: Seq<Seq<Span>>) -> bool {
    &&& text.len() == lines.len()
    &&& forall|i: int| 0 <= i < text.len() ==> (#[trigger] text[i])@ == lines[i]
}

/// The character at place `i` of `chars`.
fn char_at(chars: &Vec<char>, i: usize) -> (ch: char)
    requires
        i < chars.len(),
    ensures
        ch == chars[i as int],
{
    chars[i]
}

/// One row of cells: the pad, then the characters of `chars`, one for each
/// cell, with a bar between each two.
pub(crate) fn row_of_cells(chars: &Vec<char>, cells: Look, lines: Look) -> (line: Vec<Span>)
    ensures
        line@ == cell_row(chars.len() as int, |j: int| chars@[j], cells, lines),
{
    let n = chars.len();
    let mut line: Vec<Span> = Vec::new();
    line.push(Span { glyph: Glyph::Pad, look: Look::Plain });
    if n == 0 {
        return line;
    }
    let first = char_at(chars, 0);
    line.push(Span { glyph: Glyph::Cell(first), look: cells });
    let mut at: usize = 1;
    while at < n
        invariant
            1 <= at <= n,
            n == chars.len(),
            line@.len() == 2 * at,
            forall|k: int|
                0 <= k < line@.len() ==> #[trigger] line@[k] == cell_row_piece(
                    k,
                    |j: int| chars@[j],
                    cells,
                    lines,
                ),
        decreases n - at,
    {
        let ch = char_at(chars, at);
        line.push(Span { glyph: Glyph::Bar, look: lines });
        line.push(Span { glyph: Glyph::Cell(ch), look: cells });
        at += 1;
    }
    line
}

/// The level line under a row of `cols` cells.
pub(crate) fn row_of_rules(cols: usize, lines: Look) -> (line: Vec<Span>)
    ensures
        line@ == rule_row(cols as int, lines),
{
    let mut line: Vec<Span> = Vec::new();
    line.push(Span { glyph: Glyph::Dash, look: lines });
    line.push(Span { glyph: Glyph::Dash, look: lines });
    line.push(Span { glyph: Glyph::Dash, look: lines });
    let mut j: usize = 1;
    while j < cols
        invariant
            1 <= j,
            j == 1 || j <= cols,
            line@.len() == j + 2,
            forall|k: int|
                0 <= k < line@.len() ==> #[trigger] line@[k] == if k < 3 {
                    Span { glyph: Glyph::Dash, look: lines }
                } else {
                    Span { glyph: Glyph::Cross, look: lines }
                },
        decreases cols - j,
    {
        line.push(Span { glyph: Glyph::Cross, look: lines });
        j += 1;
    }
    line
}

/// The lines on the screen for an empty board of `size` rows and columns,
/// with an `x` in every cell and everything drawn plainly.
pub fn generate_empty_board(size: u8) -> (text: Vec<Vec<Span>>)
    ensures
        shows(
            text@,
            grid_lines(size as int, size as int, |i: int, j: int| 'x', Look::Plain, Look::Plain),
        ),
{
    let mut chars: Vec<char> = Vec::new();
    let mut j: u8 = 0;
    while j < size
        invariant
            j <= size,
            chars@.len() == j,
            forall|k: int| 0 <= k < chars@.len() ==> chars@[k] == 'x',
        decreases size - j,
    {
        chars.push('x');
        j += 1;
    }
    let ghost want = grid_lines(
        size as int,
        size as int,
        |i: int, j: int| 'x',
        Look::Plain,
        Look::Plain,
    );
    let mut text: Vec<Vec<Span>> = Vec::new();
    let mut i: u8 = 0;
    while i < size
        invariant
            i <= size,
            chars@.len() == size,
            forall|k: int| 0 <= k < chars@.len() ==> chars@[k] == 'x',
            want == grid_lines(
                size as int,
                size as int,
                |i: int, j: int| 'x',
                Look::Plain,
                Look::Plain,
            ),
            text@.len() == if i == 0 {
                0int
            } else {
                2 * i - 1
            },
            forall|k: int| 0 <= k < text@.len() ==> (#[trigger] text@[k])@ == want[k],
        decreases size - i,
    {
        if i > 0 {
            let rule = row_of_rules(size as usize, Look::Plain);
            text.push(rule);
        }
        let line = row_of_cells(&chars, Look::Plain, Look::Plain);
        text.push(line);
        i += 1;
    }
    text
}

/// The lines on the screen for the board `a`: its cells in bold, in a grid
/// of dimmed lines.
pub fn generate_map<M: Display>(a: &M) -> (text: Vec<Vec<Span>>)
    requires
        a.showable(),
    ensures
        shows(
            text@,
            grid_lines(
                a.size_spec().0 as int,
                a.size_spec().1 as int,
                |i: int, j: int| a.glyph(i, j),
                Look::Bold,
                Look::Line,
            ),
        ),
{
    let size = a.size();
    let arr = a.to_array();
    let ghost want = grid_lines(
        size.0 as int,
        size.1 as int,
        |i: int, j: int| a.glyph(i, j),
        Look::Bold,
        Look::Line,
    );
    let mut text: Vec<Vec<Span>> = Vec::new();
    let mut i: u8 = 0;
    while i < size.0
        invariant
            i <= size.0,
            size == a.size_spec(),
            arr@.len() == size.0,
            forall|r: int| 0 <= r < arr@.len() ==> (#[trigger] arr@[r])@.len() == size.1,
            forall|r: int, c: int|
                0 <= r < size.0 && 0 <= c < size.1 ==> (#[trigger] arr@[r]@[c]) == a.glyph(r, c),
            want == grid_lines(
                size.0 as int,
                size.1 as int,
                |i: int, j: int| a.glyph(i, j),
                Look::Bold,
                Look::Line,
            ),
            text@.len() == if i == 0 {
                0int
            } else {
                2 * i - 1
            },
            forall|k: int| 0 <= k < text@.len() ==> (#[trigger] text@[k])@ == want[k],
        decreases size.0 - i,
    {
        if i > 0 {
            let rule = row_of_rules(size.1 as usize, Look::Line);
            text.push(rule);
        }
        let line = row_of_cells(&arr[i as usize], Look::Bold, Look::Line);
        text.push(line);
        i += 1;
    }
    text
}

/// The cell that the screen position in column `col` and row `row` falls
/// into, by row and column, or `None` if the position lies on a line of the
/// grid. Rows of cells stand on the odd rows of the screen, and each cell is
/// four columns wide, the first of them a line.
pub fn get_pos(col: u16, row: u16) -> (p: Option<(u16, u16)>)
    ensures
        p == if row % 2 == 1 && col % 4 != 0 {
            Some((((row - 1) / 2) as u16, (col / 4) as u16))
        } else {
            None
        },
{
    let mut p = None;
    if row % 2 == 1 && col % 4 != 0 {
        let x = (row - 1) / 2;
        let y = col / 4;
        p = Some((x, y));
    }
    p
}

} // verus!
