//! Noughts and crosses as a game that the search can play: the board is the
//! list of the stones placed so far.

use crate::ai::AI;
use crate::base::{Board, GameState, OutCome, Player, Step};
use crate::board::line_cell;
use crate::display::Display;
use vstd::prelude::*;

verus! {

/// The number of rows, which is the number of columns.
pub const SIZE: u8 = 3;

/// A cell by row and column.
#[derive(PartialEq, Eq, Structural, Copy, Clone, Debug)]
pub struct TTTPos(pub u8, pub u8);

impl TTTPos {
    /// The cell is on the board.
    pub open spec fn on_board(self) -> bool {
        self.0 < 3 && self.1 < 3
    }

    /// Whether the cell is on the board.
    pub fn valid(&self) -> (b: bool)
        ensures
            b == self.on_board(),
    {
        if self.0 < SIZE && self.1 < SIZE {
            true
        } else {
            false
        }
    }
}

/// A stone: its owner and its cell.
#[derive(PartialEq, Eq, Structural, Copy, Clone, Debug)]
pub struct TTTPiece {
    pub belong: Player,
    pub pos: TTTPos,
}

/// The placing of one stone.
#[derive(PartialEq, Eq, Structural, Copy, Clone, Debug)]
pub struct TTTStep {
    pub piece: TTTPiece,
}

impl Step for TTTStep {
    open spec fn who_spec(&self) -> Player {
        self.piece.belong
    }

    open spec fn target(&self) -> (u8, u8) {
        (self.piece.pos.0, self.piece.pos.1)
    }

    open spec fn source(&self) -> Option<(u8, u8)> {
        None
    }

    open spec fn placing() -> bool {
        true
    }

    proof fn lemma_step_is_its_parts(a: Self, b: Self) {
    }

    fn who(&self) -> (p: Player) {
        self.piece.belong
    }

    fn places() -> (b: bool) {
        true
    }

    fn new_put_step(pos: (u8, u8), p: Player) -> (s: Self) {
        TTTStep { piece: TTTPiece { belong: p, pos: TTTPos(pos.0, pos.1) } }
    }

    /// Stones are never moved in this game, so no step of this kind exists.
    fn new_move_step(from: (u8, u8), to: (u8, u8), p: Player) -> (s: Self) {
        TTTStep { piece: TTTPiece { belong: p, pos: TTTPos(to.0, to.1) } }
    }
}

/// The board: the stones in the order in which they were placed.
#[derive(Debug)]
pub struct TTTBoard {
    pub pieces: Vec<TTTPiece>,
}

impl View for TTTBoard {
    type V = Seq<TTTPiece>;

    open spec fn view(&self) -> Seq<TTTPiece> {
        self.pieces@
    }
}

/// A stone lies on the cell `pos`.
pub open spec fn taken(m: Seq<TTTPiece>, pos: TTTPos) -> bool {
    exists|i: int| 0 <= i < m.len() && (#[trigger] m[i]).pos == pos
}

/// A stone of `p` lies on cell number `i`, counting row by row.
pub open spec fn marked(m: Seq<TTTPiece>, p: Player, i: int) -> bool {
    exists|k: int|
        0 <= k < m.len() && (#[trigger] m[k]).belong == p && m[k].pos == TTTPos(
            (i / 3) as u8,
            (i % 3) as u8,
        )
}

/// Stones of `p` lie on all three cells of `line`.
pub open spec fn line_marked(m: Seq<TTTPiece>, p: Player, line: int) -> bool {
    marked(m, p, line_cell(line, 0)) && marked(m, p, line_cell(line, 1)) && marked(
        m,
        p,
        line_cell(line, 2),
    )
}

/// `p` has three in a line.
pub open spec fn wins(m: Seq<TTTPiece>, p: Player) -> bool {
    exists|line: int| 0 <= line < 8 && #[trigger] line_marked(m, p, line)
}

/// How the game stands: won by the player who has three in a line (by
/// player 0 if both have), drawn when nine stones are placed, else running.
pub open spec fn outcome(m: Seq<TTTPiece>) -> GameState {
    if wins(m, Player(0)) {
        GameState::Over(OutCome::Winer(Player(0)))
    } else if wins(m, Player(1)) {
        GameState::Over(OutCome::Winer(Player(1)))
    } else if m.len() == 9 {
        GameState::Over(OutCome::Draw)
    } else {
        GameState::Running
    }
}

/// Whether `step` may be played: its cell is on the board and no stone lies
/// on it.
pub open spec fn fits(m: Seq<TTTPiece>, step: TTTStep) -> bool {
    step.piece.pos.on_board() && !taken(m, step.piece.pos)
}

/// The step of `player` onto cell number `i`, counting row by row.
pub open spec fn step_onto(player: Player, i: int) -> TTTStep {
    TTTStep { piece: TTTPiece { belong: player, pos: TTTPos((i / 3) as u8, (i % 3) as u8) } }
}

/// The steps of `player` onto the free cells among the first `n` cells, in
/// the order in which the cells are counted.
pub open spec fn free_steps(m: Seq<TTTPiece>, player: Player, n: nat) -> Seq<TTTStep>
    decreases n,
{
    if n == 0 {
        Seq::empty()
    } else {
        let rest = free_steps(m, player, (n - 1) as nat);
        if fits(m, step_onto(player, n - 1)) {
            rest.push(step_onto(player, n - 1))
        } else {
            rest
        }
    }
}

/// The value of the position for `player`: 32 if `player` has won, -32 if
/// the opponent has, and 0 as long as nobody has.
pub open spec fn value_of(m: Seq<TTTPiece>, player: Player) -> int {
    match outcome(m) {
        GameState::Running => 0,
        GameState::Over(OutCome::Draw) => 0,
        GameState::Over(OutCome::Winer(p)) => if p == player {
            32
        } else {
            -32
        },
    }
}

impl Clone for TTTBoard {
    /// A board with the same stones in the same order.
    fn clone(&self) -> (b: Self)
        ensures
            b@ == self@,
    {
        let mut pieces: Vec<TTTPiece> = Vec::new();
        let mut i: usize = 0;
        while i < self.pieces.len()
            invariant
                i <= self.pieces.len(),
                pieces@ == self.pieces@.subrange(0, i as int),
            decreases self.pieces.len() - i,
        {
            pieces.push(self.pieces[i]);
            i += 1;
        }
        TTTBoard { pieces }
    }
}

impl TTTBoard {
    /// Every stone lies on a cell of the board.
    pub open spec fn well_formed(&self) -> bool {
        forall|i: int| 0 <= i < self@.len() ==> (#[trigger] self@[i]).pos.on_board()
    }

    /// Whether `step` may be played: its cell is on the board and no stone
    /// lies on it.
    pub fn can_put(&self, step: &TTTStep) -> (ok: bool)
        ensures
            ok == fits(self@, *step),
    {
        if step.piece.pos.valid() {
            let mut i: usize = 0;
            while i < self.pieces.len()
                invariant
                    i <= self.pieces.len(),
                    forall|k: int| 0 <= k < i ==> (#[trigger] self@[k]).pos != step.piece.pos,
                decreases self.pieces.len() - i,
            {
                if self.pieces[i].pos == step.piece.pos {
                    return false;
                }
                i += 1;
            }
            return true;
        }
        false
    }

    /// Places a stone of `player` on row `x`, column `y` if that is a free
    /// cell of the board, and says whether it did.
    pub fn hand_put(&mut self, player: Player, x: u8, y: u8) -> (ok: bool)
        requires
            old(self).well_formed(),
        ensures
            final(self).well_formed(),
            ok == (TTTPos(x, y).on_board() && !taken(old(self)@, TTTPos(x, y))),
            ok ==> final(self)@ == old(self)@.push(
                (TTTPiece { belong: player, pos: TTTPos(x, y) }),
            ),
            !ok ==> final(self)@ == old(self)@,
    {
        self.put(TTTStep { piece: TTTPiece { belong: player, pos: TTTPos(x, y) } })
    }

    /// For each cell, whether a stone of `pla` lies on it.
    fn marks(&self, pla: Player) -> (mat: [[bool; 3]; 3])
        requires
            self.well_formed(),
        ensures
            forall|i: int| 0 <= i < 9 ==> #[trigger] mat[i / 3][i % 3] == marked(self@, pla, i),
    {
        let mut mat = [[false;3];3];
        let mut k: usize = 0;
        while k < self.pieces.len()
            invariant
                k <= self.pieces.len(),
                self.well_formed(),
                forall|i: int|
                    0 <= i < 9 ==> #[trigger] mat[i / 3][i % 3] == marked(
                        self@.subrange(0, k as int),
                        pla,
                        i,
                    ),
            decreases self.pieces.len() - k,
        {
            let pie = self.pieces[k];
            let ghost after = self@.subrange(0, k + 1);
            if pie.belong == pla {
                mat[pie.pos.0 as usize][pie.pos.1 as usize] = true;
            }
            assert forall|i: int| 0 <= i < 9 implies #[trigger] mat[i / 3][i % 3] == marked(
                after,
                pla,
                i,
            ) by {
                let here = TTTPos((i / 3) as u8, (i % 3) as u8);
                if pie.belong == pla && pie.pos == here {
                    assert(after[k as int] == pie);
                }
            }
            k += 1;
        }
        assert(self@.subrange(0, self.pieces.len() as int) =~= self@);
        mat
    }

    /// Whether `pla` has three in a line.
    fn has_line(&self, pla: Player) -> (flag: bool)
        requires
            self.well_formed(),
        ensures
            flag == wins(self@, pla),
    {
        let mat = self.marks(pla);
        let mut flag = false;
        assert(mat[0][0] == marked(self@, pla, 0)) by {
            assert(mat[0int / 3][0int % 3] == marked(self@, pla, 0));
        }
        assert(mat[0][1] == marked(self@, pla, 1)) by {
            assert(mat[1int / 3][1int % 3] == marked(self@, pla, 1));
        }
        assert(mat[0][2] == marked(self@, pla, 2)) by {
            assert(mat[2int / 3][2int % 3] == marked(self@, pla, 2));
        }
        assert(mat[1][0] == marked(self@, pla, 3)) by {
            assert(mat[3int / 3][3int % 3] == marked(self@, pla, 3));
        }
        assert(mat[2][0] == marked(self@, pla, 6)) by {
            assert(mat[6int / 3][6int % 3] == marked(self@, pla, 6));
        }
        if mat[0][0] && mat[1][1] && mat[2][2] {
            assert(line_marked(self@, pla, 0));
            flag = true;
        }
        if mat[0][2] && mat[1][1] && mat[2][0] {
            assert(line_marked(self@, pla, 1));
            flag = true;
        }
        if mat[0][0] && mat[0][1] && mat[0][2] {
            assert(line_marked(self@, pla, 2));
            flag = true;
        }
        if mat[1][0] && mat[1][1] && mat[1][2] {
            assert(line_marked(self@, pla, 3));
            flag = true;
        }
        if mat[2][0] && mat[2][1] && mat[2][2] {
            assert(line_marked(self@, pla, 4));
            flag = true;
        }
        if mat[0][0] && mat[1][0] && mat[2][0] {
            assert(line_marked(self@, pla, 5));
            flag = true;
        }
        if mat[0][1] && mat[1][1] && mat[2][1] {
            assert(line_marked(self@, pla, 6));
            flag = true;
        }
        if mat[0][2] && mat[1][2] && mat[2][2] {
            assert(line_marked(self@, pla, 7));
            flag = true;
        }
        flag
    }
}

impl Board<TTTStep> for TTTBoard {
    open spec fn wf(&self) -> bool {
        self.well_formed()
    }

    open spec fn new_spec() -> Seq<TTTPiece> {
        Seq::empty()
    }

    open spec fn can_put_spec(m: Seq<TTTPiece>, step: TTTStep) -> bool {
        fits(m, step)
    }

    open spec fn put_spec(m: Seq<TTTPiece>, step: TTTStep) -> Seq<TTTPiece> {
        m.push(step.piece)
    }

    open spec fn over_spec(m: Seq<TTTPiece>) -> GameState {
        outcome(m)
    }

    fn new() -> (b: Self) {
        TTTBoard { pieces: Vec::new() }
    }

    fn put(&mut self, step: TTTStep) -> (ok: bool) {
        if self.can_put(&step) {
            self.pieces.push(step.piece);
            return true;
        }
        false
    }

    fn over(&self) -> (s: GameState) {
        if self.has_line(Player(0)) {
            return GameState::Over(OutCome::Winer(Player(0)));
        }
        if self.has_line(Player(1)) {
            return GameState::Over(OutCome::Winer(Player(1)));
        }
        if self.pieces.len() == 9 {
            return GameState::Over(OutCome::Draw);
        }
        GameState::Running
    }

    fn duplicate(&self) -> (b: Self) {
        self.clone()
    }
}

impl AI<TTTStep> for TTTBoard {
    open spec fn score_spec(m: Seq<TTTPiece>, player: Player) -> int {
        value_of(m, player)
    }

    open spec fn steps_spec(m: Seq<TTTPiece>, player: Player, deep: u8) -> Seq<TTTStep> {
        free_steps(m, player, 9)
    }

    proof fn lemma_score_bounded(m: Seq<TTTPiece>, player: Player) {
    }

    /// 32 if `player` has won, -32 if the opponent has, 0 as long as nobody
    /// has.
    fn score(&self, player: Player) -> (s: i32) {
        match self.over() {
            GameState::Running => 0,
            GameState::Over(OutCome::Draw) => 0,
            GameState::Over(OutCome::Winer(p)) => {
                if p == player {
                    32
                } else {
                    -32
                }
            },
        }
    }

    /// A step of `player` onto each free cell, read row by row, however many
    /// plies are left.
    fn get_possible_steps(&self, player: Player, deep: u8) -> (v: Vec<TTTStep>) {
        let mut v: Vec<TTTStep> = Vec::new();
        let mut n: u8 = 0;
        while n < 9
            invariant
                n <= 9,
                v@ == free_steps(self@, player, n as nat),
                forall|i: int|
                    0 <= i < v.len() ==> fits(self@, #[trigger] v[i]) && v[i].piece.belong
                        == player,
            decreases 9 - n,
        {
            let s = TTTStep { piece: TTTPiece { belong: player, pos: TTTPos(n / SIZE, n % SIZE) } };
            if self.can_put(&s) {
                v.push(s);
            }
            n += 1;
        }
        v
    }
}

impl Display for TTTBoard {
    open spec fn showable(&self) -> bool {
        self.well_formed()
    }

    /// `o` for a stone of player 0, `x` for a stone of player 1, and a blank
    /// for a free cell.
    open spec fn glyph(&self, r: int, c: int) -> char {
        if marked(self@, Player(0), r * 3 + c) {
            'o'
        } else if marked(self@, Player(1), r * 3 + c) {
            'x'
        } else if taken(self@, TTTPos(r as u8, c as u8)) {
            '?'
        } else {
            ' '
        }
    }

    open spec fn size_spec(&self) -> (u8, u8) {
        (3, 3)
    }

    fn to_array(&self) -> (arr: Vec<Vec<char>>) {
        let zero = self.marks(Player(0));
        let one = self.marks(Player(1));
        let mut arr: Vec<Vec<char>> = Vec::new();
        let mut i: u8 = 0;
        while i < 3
            invariant
                i <= 3,
                arr@.len() == i,
                forall|k: int|
                    0 <= k < 9 ==> #[trigger] zero[k / 3][k % 3] == marked(self@, Player(0), k),
                forall|k: int|
                    0 <= k < 9 ==> #[trigger] one[k / 3][k % 3] == marked(self@, Player(1), k),
                forall|r: int| 0 <= r < i ==> (#[trigger] arr@[r])@.len() == 3,
                forall|r: int, c: int|
                    0 <= r < i && 0 <= c < 3 ==> (#[trigger] arr@[r]@[c]) == self.glyph(r, c),
            decreases 3 - i,
        {
            let mut row: Vec<char> = Vec::new();
            let mut j: u8 = 0;
            while j < 3
                invariant
                    i < 3,
                    j <= 3,
                    row@.len() == j,
                    forall|k: int|
                        0 <= k < 9 ==> #[trigger] zero[k / 3][k % 3] == marked(
                            self@,
                            Player(0),
                            k,
                        ),
                    forall|k: int|
                        0 <= k < 9 ==> #[trigger] one[k / 3][k % 3] == marked(self@, Player(1), k),
                    forall|c: int| 0 <= c < j ==> #[trigger] row@[c] == self.glyph(i as int, c),
                decreases 3 - j,
            {
                let ghost k = i * 3 + j;
                assert(zero[k / 3][k % 3] == marked(self@, Player(0), k));
                let taken_here = self.holds_stone(i, j);
                let ch = if zero[i as usize][j as usize] {
                    'o'
                } else if one[i as usize][j as usize] {
                    'x'
                } else if taken_here {
                    '?'
                } else {
                    ' '
                };
                row.push(ch);
                j += 1;
            }
            arr.push(row);
            i += 1;
        }
        arr
    }

    fn size(&self) -> (s: (u8, u8)) {
        (3, 3)
    }

    /// Nothing is logged for this game.
    fn to_string(&self) -> (s: String)
        ensures
            s@ == Seq::<char>::empty(),
    {
        String::new()
    }
}

impl TTTBoard {
    /// Whether a stone lies on row `r`, column `c`.
    fn holds_stone(&self, r: u8, c: u8) -> (found: bool)
        ensures
            found == taken(self@, TTTPos(r, c)),
    {
        let mut i: usize = 0;
        while i < self.pieces.len()
            invariant
                i <= self.pieces.len(),
                forall|k: int| 0 <= k < i ==> (#[trigger] self@[k]).pos != TTTPos(r, c),
            decreases self.pieces.len() - i,
        {
            if self.pieces[i].pos == TTTPos(r, c) {
                return true;
            }
            i += 1;
        }
        false
    }
}

} // verus!
