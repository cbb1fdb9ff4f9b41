//! A three by three board for noughts and crosses, held as a grid of cells.

use crate::text::string_of;
use vstd::prelude::*;

verus! {

/// Who holds a cell: the computer, the human, or nobody.
#[derive(PartialEq, Eq, Structural, Copy, Clone, Debug)]
pub enum Role {
    Com,
    Hum,
    Empty,
}

impl Role {
    /// The opponent of a player; an empty cell has none and stays empty.
    pub open spec fn other(self) -> Role {
        match self {
            Role::Com => Role::Hum,
            Role::Hum => Role::Com,
            Role::Empty => Role::Empty,
        }
    }

    /// The opponent of a player; `Empty` for `Empty`.
    pub fn rev(&self) -> (r: Self)
        ensures
            r == self.other(),
    {
        if *self == Role::Com {
            return Role::Hum;
        }
        if *self == Role::Hum {
            return Role::Com;
        }
        Role::Empty
    }

    /// The letter that stands for the holder of a cell.
    pub fn to_char(&self) -> (ch: char)
        ensures
            ch == self.letter(),
    {
        match *self {
            Role::Com => 'c',
            Role::Hum => 'h',
            Role::Empty => ' ',
        }
    }
}

/// A cell by row and column. The numbers are signed so that a step off the
/// board can be written down and then found to be off the board.
#[derive(PartialEq, Eq, Structural, Copy, Clone, Debug)]
pub struct Pos(pub i8, pub i8);

impl Pos {
    /// Row and column both lie between `min` and `max`.
    pub open spec fn within(self, min: int, max: int) -> bool {
        min <= self.0 <= max && min <= self.1 <= max
    }

    /// The cell is on the three by three board.
    pub open spec fn on_board(self) -> bool {
        self.within(0, 2)
    }

    /// Whether row and column both lie between `min` and `max`.
    pub fn valid(&self, min: i8, max: i8) -> (b: bool)
        ensures
            b == self.within(min as int, max as int),
    {
        let p = self;
        (p.0 >= min && p.0 <= max) && (p.1 >= min && p.1 <= max)
    }
}

impl core::ops::Add<[i8; 2]> for Pos {
    type Output = Self;

    /// The position `other[0]` rows and `other[1]` columns further on.
    fn add(self, other: [i8; 2]) -> (p: Self) {
        Self(self.0 + other[0], self.1 + other[1])
    }
}

impl vstd::std_specs::ops::AddSpecImpl<[i8; 2]> for Pos {
    open spec fn obeys_add_spec() -> bool {
        true
    }

    /// Neither the row nor the column leaves the range of its type.
    open spec fn add_req(self, other: [i8; 2]) -> bool {
        i8::MIN <= self.0 + other[0] <= i8::MAX && i8::MIN <= self.1 + other[1] <= i8::MAX
    }

    open spec fn add_spec(self, other: [i8; 2]) -> Pos {
        Pos((self.0 + other[0]) as i8, (self.1 + other[1]) as i8)
    }
}

impl core::ops::Sub<[i8; 2]> for Pos {
    type Output = Self;

    /// The position `other[0]` rows and `other[1]` columns further back.
    fn sub(self, other: [i8; 2]) -> (p: Self) {
        Self(self.0 - other[0], self.1 - other[1])
    }
}

impl vstd::std_specs::ops::SubSpecImpl<[i8; 2]> for Pos {
    open spec fn obeys_sub_spec() -> bool {
        true
    }

    /// Neither the row nor the column leaves the range of its type.
    open spec fn sub_req(self, other: [i8; 2]) -> bool {
        i8::MIN <= self.0 - other[0] <= i8::MAX && i8::MIN <= self.1 - other[1] <= i8::MAX
    }

    open spec fn sub_spec(self, other: [i8; 2]) -> Pos {
        Pos((self.0 - other[0]) as i8, (self.1 - other[1]) as i8)
    }
}

/// The board: three rows of three cells.
#[derive(Copy, Clone, Debug)]
pub struct TTTBoard {
    pub pieces: [[Role; 3]; 3],
}

/// The eight lines of three cells, each as the numbers of its cells when the
/// cells are counted row by row: the two diagonals, then the rows, then the
/// columns.
pub open spec fn line_cell(line: int, k: int) -> int {
    if line == 0 {
        4 * k
    } else if line == 1 {
        2 + 2 * k
    } else if line < 5 {
        3 * (line - 2) + k
    } else {
        (line - 5) + 3 * k
    }
}

/// The four directions in which lines run through a cell, as the change of
/// row and column from one cell to the next: down, right, down and right,
/// down and left.
pub open spec fn offset_spec(k: int) -> (int, int) {
    if k == 0 {
        (1, 0)
    } else if k == 1 {
        (0, 1)
    } else if k == 2 {
        (1, 1)
    } else {
        (1, -1)
    }
}

impl TTTBoard {
    /// The cell `j` steps of (`dr`, `dc`) from `p` is on the board and held
    /// by `r`.
    pub open spec fn holds(self, r: Role, p: Pos, dr: int, dc: int, j: int) -> bool {
        let row = p.0 + j * dr;
        let col = p.1 + j * dc;
        0 <= row <= 2 && 0 <= col <= 2 && self.pieces[row][col] == r
    }

    /// The number of cells held by `r` that follow `p` without a gap in
    /// steps of (`dr`, `dc`), up to two.
    pub open spec fn reach(self, r: Role, p: Pos, dr: int, dc: int) -> int {
        if !self.holds(r, p, dr, dc, 1) {
            0
        } else if !self.holds(r, p, dr, dc, 2) {
            1
        } else {
            2
        }
    }

    /// Those cells, the nearest first.
    pub open spec fn stretch(self, r: Role, p: Pos, dr: int, dc: int) -> Seq<Pos> {
        Seq::new(
            self.reach(r, p, dr, dc) as nat,
            |j: int| Pos((p.0 + (j + 1) * dr) as i8, (p.1 + (j + 1) * dc) as i8),
        )
    }

    /// The cells held by `r` that continue the line through `p` in direction
    /// `k`: those that follow `p`, then those that come before it.
    pub open spec fn line_of(self, r: Role, p: Pos, k: int) -> Seq<Pos> {
        self.stretch(r, p, offset_spec(k).0, offset_spec(k).1) + self.stretch(
            r,
            p,
            -offset_spec(k).0,
            -offset_spec(k).1,
        )
    }

    /// The lines of the first `n` directions that are not empty.
    pub open spec fn lines_of(self, r: Role, p: Pos, n: nat) -> Seq<Seq<Pos>>
        decreases n,
    {
        if n == 0 {
            Seq::empty()
        } else {
            let rest = self.lines_of(r, p, (n - 1) as nat);
            let line = self.line_of(r, p, n - 1);
            if line.len() > 0 {
                rest.push(line)
            } else {
                rest
            }
        }
    }

    /// Who holds the cell on row `r`, column `c`.
    pub open spec fn at(self, r: int, c: int) -> Role {
        self.pieces[r][c]
    }

    /// Who holds cell number `i`, counting row by row.
    pub open spec fn cell(self, i: int) -> Role {
        self.pieces[i / 3][i % 3]
    }

    /// The three cells of `line` are all held by `r`.
    pub open spec fn line_held(self, line: int, r: Role) -> bool {
        self.cell(line_cell(line, 0)) == r && self.cell(line_cell(line, 1)) == r && self.cell(
            line_cell(line, 2),
        ) == r
    }

    /// `r` holds all three cells of some line.
    pub open spec fn wins(self, r: Role) -> bool {
        exists|line: int| 0 <= line < 8 && #[trigger] self.line_held(line, r)
    }

    /// Some cell is empty.
    pub open spec fn has_room(self) -> bool {
        exists|i: int| 0 <= i < 9 && #[trigger] self.cell(i) == Role::Empty
    }

    /// Whether the game is over, and who has won it: the computer if it
    /// holds a line, else the human if the human does; `Empty` stands for
    /// nobody, in a game that still runs or has ended in a draw.
    pub open spec fn over_spec(self) -> (bool, Role) {
        if self.wins(Role::Com) {
            (true, Role::Com)
        } else if self.wins(Role::Hum) {
            (true, Role::Hum)
        } else if self.has_room() {
            (false, Role::Empty)
        } else {
            (true, Role::Empty)
        }
    }

    /// The board with the cell `p` held by `r`.
    pub open spec fn with(self, p: Pos, r: Role) -> TTTBoard {
        TTTBoard {
            pieces: vstd::array::spec_array_update(
                self.pieces,
                p.0 as int,
                vstd::array::spec_array_update(self.pieces[p.0 as int], p.1 as int, r),
            ),
        }
    }

    /// The cells held by `r` among the first `n` cells, in the order in which
    /// the cells are counted.
    pub open spec fn cells_of(self, r: Role, n: nat) -> Seq<Pos>
        decreases n,
    {
        if n == 0 {
            Seq::empty()
        } else {
            let rest = self.cells_of(r, (n - 1) as nat);
            if self.cell(n - 1) == r {
                rest.push(Pos(((n - 1) / 3) as i8, ((n - 1) % 3) as i8))
            } else {
                rest
            }
        }
    }

    /// The empty board.
    pub fn new() -> (b: TTTBoard)
        ensures
            forall|i: int| 0 <= i < 9 ==> #[trigger] b.cell(i) == Role::Empty,
    {
        TTTBoard { pieces: [[Role::Empty;3];3] }
    }

    /// The number of rows, which is the number of columns.
    pub fn size() -> (n: u8)
        ensures
            n == 3,
    {
        3
    }

    /// Gives the cell `p` to `r`, whoever held it.
    pub fn set(&mut self, p: Pos, r: Role)
        requires
            p.on_board(),
        ensures
            *final(self) == old(self).with(p, r),
    {
        self.pieces[p.0 as usize][p.1 as usize] = r;
    }

    /// Gives the cell `p` to `r` if it is an empty cell of the board, and
    /// leaves the board as it is if not.
    pub fn put(&mut self, p: Pos, r: Role)
        ensures
            *final(self) == if p.on_board() && old(self).at(p.0 as int, p.1 as int)
                == Role::Empty {
                old(self).with(p, r)
            } else {
                *old(self)
            },
    {
        if self.can_put(p) {
            self.pieces[p.0 as usize][p.1 as usize] = r;
        }
    }

    /// A copy of the board with the cell `p` held by `r`.
    pub fn copy_set(&self, p: Pos, r: Role) -> (b: Self)
        requires
            p.on_board(),
        ensures
            b == self.with(p, r),
    {
        let mut b = self.clone();
        b.pieces[p.0 as usize][p.1 as usize] = r;
        b
    }

    /// The cells held by `r`, read row by row.
    pub fn get_poss(&self, r: Role) -> (v: Vec<Pos>)
        ensures
            v@ == self.cells_of(r, 9),
    {
        let mut v = Vec::new();
        let mut n: u8 = 0;
        while n < 9
            invariant
                n <= 9,
                v@ == self.cells_of(r, n as nat),
            decreases 9 - n,
        {
            let i = n / 3;
            let j = n % 3;
            if self.pieces[i as usize][j as usize] == r {
                v.push(Pos(i as i8, j as i8));
            }
            n += 1;
        }
        v
    }

    /// The empty cells, read row by row.
    pub fn get_empty_poss(&self) -> (v: Vec<Pos>)
        ensures
            v@ == self.cells_of(Role::Empty, 9),
    {
        self.get_poss(Role::Empty)
    }

    /// Whether `p` is an empty cell of the board.
    pub fn can_put(&self, p: Pos) -> (b: bool)
        ensures
            b == (p.on_board() && self.at(p.0 as int, p.1 as int) == Role::Empty),
    {
        if (p.0 >= 0 && p.0 <= 2) && (p.1 >= 0 && p.1 <= 2) {
            return self.pieces[p.0 as usize][p.1 as usize] == Role::Empty;
        }
        false
    }

    /// Whether the three cells of `line` are all held by `r`.
    fn holds_line(&self, line: u8, r: Role) -> (b: bool)
        requires
            line < 8,
        ensures
            b == self.line_held(line as int, r),
    {
        let ps = &self.pieces;
        if line == 0 {
            ps[0][0] == r && ps[1][1] == r && ps[2][2] == r
        } else if line == 1 {
            ps[0][2] == r && ps[1][1] == r && ps[2][0] == r
        } else if line < 5 {
            let i = (line - 2) as usize;
            ps[i][0] == r && ps[i][1] == r && ps[i][2] == r
        } else {
            let i = (line - 5) as usize;
            ps[0][i] == r && ps[1][i] == r && ps[2][i] == r
        }
    }

    /// Whether `r` holds all three cells of some line.
    fn holds_some_line(&self, r: Role) -> (b: bool)
        ensures
            b == self.wins(r),
    {
        let mut line: u8 = 0;
        while line < 8
            invariant
                line <= 8,
                forall|l: int| 0 <= l < line ==> !#[trigger] self.line_held(l, r),
            decreases 8 - line,
        {
            if self.holds_line(line, r) {
                return true;
            }
            line += 1;
        }
        false
    }

    /// Whether the game is over, and who has won it. The computer is looked
    /// at first; `Empty` stands for nobody, in a game that still runs or has
    /// ended in a draw.
    pub fn over(&self) -> (res: (bool, Role))
        ensures
            res == self.over_spec(),
    {
        if self.holds_some_line(Role::Com) {
            return (true, Role::Com);
        }
        if self.holds_some_line(Role::Hum) {
            return (true, Role::Hum);
        }
        let mut n: u8 = 0;
        while n < 9
            invariant
                n <= 9,
                !self.wins(Role::Com),
                !self.wins(Role::Hum),
                forall|i: int| 0 <= i < n ==> #[trigger] self.cell(i) != Role::Empty,
            decreases 9 - n,
        {
            if self.pieces[(n / 3) as usize][(n % 3) as usize] == Role::Empty {
                assert(self.cell(n as int) == Role::Empty);
                return (false, Role::Empty);
            }
            n += 1;
        }
        (true, Role::Empty)
    }

    /// Adds to `line` the cells held by `r` that follow `p` without a gap in
    /// steps of `offset`, forward or backward, up to two.
    fn walk(&self, r: Role, p: Pos, offset: [i8; 2], forward: bool, line: &mut Vec<Pos>)
        requires
            -126 <= p.0 <= 125,
            -126 <= p.1 <= 125,
            -1 <= offset[0] <= 1,
            -1 <= offset[1] <= 1,
        ensures
            final(line)@ == old(line)@ + self.stretch(
                r,
                p,
                if forward {
                    offset[0] as int
                } else {
                    -offset[0]
                },
                if forward {
                    offset[1] as int
                } else {
                    -offset[1]
                },
            ),
    {
        let ghost dr = if forward {
            offset[0] as int
        } else {
            -offset[0]
        };
        let ghost dc = if forward {
            offset[1] as int
        } else {
            -offset[1]
        };
        let mut op = p;
        let mut j: u8 = 0;
        let mut going = true;
        while going && j < 2
            invariant
                j <= 2,
                -126 <= p.0 <= 125,
                -126 <= p.1 <= 125,
                -1 <= offset[0] <= 1,
                -1 <= offset[1] <= 1,
                dr == if forward {
                    offset[0] as int
                } else {
                    -offset[0]
                },
                dc == if forward {
                    offset[1] as int
                } else {
                    -offset[1]
                },
                going ==> op.0 == p.0 + j * dr && op.1 == p.1 + j * dc,
                forall|k: int| 1 <= k <= j ==> self.holds(r, p, dr, dc, k),
                !going ==> !self.holds(r, p, dr, dc, j + 1),
                line@ == old(line)@ + Seq::new(
                    j as nat,
                    |k: int| Pos((p.0 + (k + 1) * dr) as i8, (p.1 + (k + 1) * dc) as i8),
                ),
            decreases (if going { 1int } else { 0int }), 2 - j,
        {
            assert(j * dr + dr == (j + 1) * dr) by (nonlinear_arith);
            assert(j * dc + dc == (j + 1) * dc) by (nonlinear_arith);
            op = if forward {
                op + offset
            } else {
                op - offset
            };
            if op.valid(0, 2) && self.pieces[op.0 as usize][op.1 as usize] == r {
                line.push(op);
                j += 1;
            } else {
                going = false;
            }
        }
    }

    /// For each of the four directions, the cells held by `r` that continue
    /// the line through `p`: up to two that follow `p` and up to two that
    /// come before it, each time as far as they are held without a gap. A
    /// direction without such a cell is left out.
    pub fn get_neighbours(&self, r: Role, p: Pos) -> (v: Vec<Vec<Pos>>)
        requires
            -126 <= p.0 <= 125,
            -126 <= p.1 <= 125,
        ensures
            v@.len() == self.lines_of(r, p, 4).len(),
            forall|i: int| 0 <= i < v@.len() ==> (#[trigger] v@[i])@ == self.lines_of(r, p, 4)[i],
    {
        let mut v: Vec<Vec<Pos>> = Vec::new();
        let offsets: [[i8; 2]; 4] = [[1, 0], [0, 1], [1, 1], [1, -1]];
        let mut k: usize = 0;
        while k < 4
            invariant
                k <= 4,
                -126 <= p.0 <= 125,
                -126 <= p.1 <= 125,
                forall|i: int|
                    0 <= i < 4 ==> (#[trigger] offsets[i])[0] == offset_spec(i).0 && offsets[i][1]
                        == offset_spec(i).1,
                v@.len() == self.lines_of(r, p, k as nat).len(),
                forall|i: int|
                    0 <= i < v@.len() ==> (#[trigger] v@[i])@ == self.lines_of(r, p, k as nat)[i],
            decreases 4 - k,
        {
            let offset = offsets[k];
            let mut vtmp: Vec<Pos> = Vec::new();
            self.walk(r, p, offset, true, &mut vtmp);
            self.walk(r, p, offset, false, &mut vtmp);
            if !vtmp.is_empty() {
                v.push(vtmp);
            }
            k += 1;
        }
        v
    }
}

/// A row of the board as text: the letters of its three cells, each between
/// blanks, with upright lines between them.
pub open spec fn row_line(a: Role, b: Role, c: Role) -> Seq<char> {
    seq![' ', a.letter(), ' ', '│', ' ', b.letter(), ' ', '│', ' ', c.letter()]
}

/// The level line between two rows.
pub open spec fn rule_line() -> Seq<char> {
    seq!['─', '─', '─', '┼', '─', '─', '─', '┼', '─', '─', '─']
}

impl Role {
    /// The letter that stands for the holder of a cell.
    pub open spec fn letter(self) -> char {
        match self {
            Role::Com => 'c',
            Role::Hum => 'h',
            Role::Empty => ' ',
        }
    }
}

impl TTTBoard {
    /// The board as text: its three rows with a level line between each
    /// two, every line but the last ended by a line break.
    pub open spec fn text(self) -> Seq<char> {
        row_line(self.pieces[0][0], self.pieces[0][1], self.pieces[0][2]) + seq!['\n']
            + rule_line() + seq!['\n'] + row_line(
            self.pieces[1][0],
            self.pieces[1][1],
            self.pieces[1][2],
        ) + seq!['\n'] + rule_line() + seq!['\n'] + row_line(
            self.pieces[2][0],
            self.pieces[2][1],
            self.pieces[2][2],
        )
    }

    /// Writes row `i` as text to the end of `out`.
    fn push_row(&self, out: &mut Vec<char>, i: usize)
        requires
            i < 3,
        ensures
            final(out)@ == old(out)@ + row_line(
                self.pieces[i as int][0],
                self.pieces[i as int][1],
                self.pieces[i as int][2],
            ),
    {
        let a = self.pieces[i][0].to_char();
        let b = self.pieces[i][1].to_char();
        let c = self.pieces[i][2].to_char();
        out.push(' ');
        out.push(a);
        out.push(' ');
        out.push('│');
        out.push(' ');
        out.push(b);
        out.push(' ');
        out.push('│');
        out.push(' ');
        out.push(c);
    }

    /// The board as text, to be printed.
    pub fn to_text(&self) -> (s: String)
        ensures
            s@ == self.text(),
    {
        let mut out: Vec<char> = Vec::new();
        self.push_row(&mut out, 0);
        out.push('\n');
        push_rule(&mut out);
        out.push('\n');
        self.push_row(&mut out, 1);
        out.push('\n');
        push_rule(&mut out);
        out.push('\n');
        self.push_row(&mut out, 2);
        string_of(&out)
    }
}

/// Writes the level line between two rows to the end of `out`.
fn push_rule(out: &mut Vec<char>)
    ensures
        final(out)@ == old(out)@ + rule_line(),
{
    out.push('─');
    out.push('─');
    out.push('─');
    out.push('┼');
    out.push('─');
    out.push('─');
    out.push('─');
    out.push('┼');
    out.push('─');
    out.push('─');
    out.push('─');
}

/// There are no more lines through a cell than directions looked at.
pub proof fn lemma_lines_count(b: TTTBoard, r: Role, p: Pos, n: nat)
    ensures
        b.lines_of(r, p, n).len() <= n,
    decreases n,
{
    if n > 0 {
        lemma_lines_count(b, r, p, (n - 1) as nat);
    }
}

} // verus!
