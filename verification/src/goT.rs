//! A game of moving stones on a four by four board.
//!
//! Each player starts with four stones in a row of their own at opposite
//! edges. A step moves one stone to a neighbouring empty cell, up, down,
//! left or right. Two stones of the mover side by side on a line take the
//! single stone of the opponent that stands next to them on that line, if no
//! other stone stands on the line. The board knows no scoring yet, so the
//! search cannot play this game.

use crate::base::{Board, GameState, OutCome, Player, Step};
use crate::display::Display;
use crate::sums::{lemma_sum_bounds, lemma_sum_delta, sum_to};
use crate::text::{decimal, push_decimal, string_of};
use vstd::prelude::*;

verus! {

/// The number of rows, which is the number of columns.
pub const SIZE: u8 = 4;

/// What a cell holds.
#[derive(PartialEq, Eq, Structural, Copy, Clone, Debug)]
pub enum GoTPiece {
    P(Player),
    Empty,
}

/// A cell by row and column.
#[derive(PartialEq, Eq, Structural, Copy, Clone, Debug)]
pub struct GoTPos(pub u8, pub u8);

/// The move of one stone of `who` from one cell to another.
#[derive(PartialEq, Eq, Structural, Copy, Clone, Debug)]
pub struct GoTStep {
    pub who: Player,
    pub from: GoTPos,
    pub to: GoTPos,
}

/// A position of the game.
#[derive(Copy, Clone, Debug)]
pub struct GoTBoard {
    pub pieces: [[GoTPiece; 4]; 4],
    /// The numbers of stones that player 0 and player 1 have left.
    pub pieces_num: [u8; 2],
}

/// The four ways to walk from a cell.
#[derive(PartialEq, Eq, Structural, Copy, Clone, Debug)]
pub enum Dir {
    Up,
    Down,
    Left,
    Right,
}

/// A position: four rows of four cells.
pub type Field = Seq<Seq<GoTPiece>>;

/// Whether row `r`, column `c` is a cell of the board.
pub open spec fn on_field(r: int, c: int) -> bool {
    0 <= r < 4 && 0 <= c < 4
}

/// The field has the size of the board, and every stone on it belongs to
/// one of the two players.
pub open spec fn field_wf(g: Field) -> bool {
    &&& g.len() == 4
    &&& forall|r: int| 0 <= r < 4 ==> (#[trigger] g[r]).len() == 4
    &&& forall|r: int, c: int|
        on_field(r, c) ==> (#[trigger] g[r][c] matches GoTPiece::P(p) ==> p.valid())
}

/// What lies on row `r`, column `c`; nothing beyond the edge of the board.
pub open spec fn look(g: Field, r: int, c: int) -> GoTPiece {
    if on_field(r, c) {
        g[r][c]
    } else {
        GoTPiece::Empty
    }
}

/// The row that lies `i` cells from row `r` in direction `d`.
pub open spec fn row_to(d: Dir, r: int, i: int) -> int {
    match d {
        Dir::Up => r - i,
        Dir::Down => r + i,
        _ => r,
    }
}

/// The column that lies `i` cells from column `c` in direction `d`.
pub open spec fn col_to(d: Dir, c: int, i: int) -> int {
    match d {
        Dir::Left => c - i,
        Dir::Right => c + i,
        _ => c,
    }
}

/// What lies `i` cells from `pos` in direction `d`.
pub open spec fn near(g: Field, pos: GoTPos, d: Dir, i: int) -> GoTPiece {
    look(g, row_to(d, pos.0 as int, i), col_to(d, pos.1 as int, i))
}

/// The field `g` with `piece` on row `r`, column `c`.
pub open spec fn with_cell(g: Field, r: int, c: int, piece: GoTPiece) -> Field {
    g.update(r, g[r].update(c, piece))
}

/// 1 if cell number `i`, counting row by row, holds a stone of `p`, else 0.
pub open spec fn owned(g: Field, p: Player, i: int) -> int {
    if g[i / 4][i % 4] == GoTPiece::P(p) {
        1
    } else {
        0
    }
}

/// The number of stones of `p` on the field.
pub open spec fn stones_of(g: Field, p: Player) -> int {
    sum_to(|i: int| owned(g, p, i), 16)
}

/// How far the mover looks along a line in direction `d` from the cell `to`
/// that the stone has come to: past a stone of the mover's own that stands
/// next to it, and else no further than the next cell.
pub open spec fn sight(g: Field, to: GoTPos, who: Player, d: Dir) -> int {
    if near(g, to, d, 1) == GoTPiece::P(who) {
        2
    } else {
        1
    }
}

/// What the mover sees at the end of that look.
pub open spec fn seen(g: Field, to: GoTPos, who: Player, d: Dir) -> GoTPiece {
    near(g, to, d, sight(g, to, who, d))
}

/// The line through `to` along the directions `d0` and `d1` can take a
/// stone: a stone of the mover stands next to `to` on exactly one side, and
/// the mover sees a stone on exactly one side.
pub open spec fn can_take(g: Field, to: GoTPos, who: Player, d0: Dir, d1: Dir) -> bool {
    &&& sight(g, to, who, d0) + sight(g, to, who, d1) == 3
    &&& (seen(g, to, who, d0) is Empty) != (seen(g, to, who, d1) is Empty)
}

/// The stone that the mover sees in direction `d` is taken: it belongs to
/// the opponent and nothing stands behind it.
pub open spec fn takes(g: Field, to: GoTPos, who: Player, d: Dir) -> bool {
    seen(g, to, who, d) == GoTPiece::P(who.other()) && near(
        g,
        to,
        d,
        sight(g, to, who, d) + 1,
    ) is Empty
}

/// The field without the stone that the mover sees in direction `d`.
pub open spec fn taken_from(g: Field, to: GoTPos, who: Player, d: Dir) -> Field {
    with_cell(
        g,
        row_to(d, to.0 as int, sight(g, to, who, d)),
        col_to(d, to.1 as int, sight(g, to, who, d)),
        GoTPiece::Empty,
    )
}

/// The field after the line through `to` along `d0` and `d1` has been looked
/// at.
pub open spec fn after_line(g: Field, to: GoTPos, who: Player, d0: Dir, d1: Dir) -> Field {
    if !can_take(g, to, who, d0, d1) {
        g
    } else if takes(g, to, who, d0) {
        taken_from(g, to, who, d0)
    } else if takes(g, to, who, d1) {
        taken_from(g, to, who, d1)
    } else {
        g
    }
}

/// The field after a stone of `who` has come to `to`: the upright line
/// through `to` is looked at, and then the level line, unless the upright
/// line could not take a stone.
pub open spec fn after_eat(g: Field, to: GoTPos, who: Player) -> Field {
    if !can_take(g, to, who, Dir::Up, Dir::Down) {
        g
    } else {
        after_line(after_line(g, to, who, Dir::Up, Dir::Down), to, who, Dir::Left, Dir::Right)
    }
}

/// The field after the stone of `step` has moved, before any stone is taken.
pub open spec fn moved(g: Field, step: GoTStep) -> Field {
    with_cell(
        with_cell(g, step.from.0 as int, step.from.1 as int, GoTPiece::Empty),
        step.to.0 as int,
        step.to.1 as int,
        GoTPiece::P(step.who),
    )
}

/// The number of rows plus the number of columns between two cells.
pub open spec fn apart(a: GoTPos, b: GoTPos) -> int {
    (if a.0 >= b.0 {
        a.0 - b.0
    } else {
        b.0 - a.0
    }) + (if a.1 >= b.1 {
        a.1 - b.1
    } else {
        b.1 - a.1
    })
}

/// Whether `step` may be played: it moves a stone of its player, who is one
/// of the two, to an empty cell next to it.
pub open spec fn fits(g: Field, step: GoTStep) -> bool {
    &&& step.who.valid()
    &&& on_field(step.from.0 as int, step.from.1 as int)
    &&& g[step.from.0 as int][step.from.1 as int] == GoTPiece::P(step.who)
    &&& on_field(step.to.0 as int, step.to.1 as int)
    &&& g[step.to.0 as int][step.to.1 as int] == GoTPiece::Empty
    &&& apart(step.from, step.to) == 1
}

/// How the game stands: it is over, and recorded for player 0, once player 0
/// has no more than one stone, and likewise for player 1.
pub open spec fn outcome(g: Field) -> GameState {
    if stones_of(g, Player(0)) <= 1 {
        GameState::Over(OutCome::Winer(Player(0)))
    } else if stones_of(g, Player(1)) <= 1 {
        GameState::Over(OutCome::Winer(Player(1)))
    } else {
        GameState::Running
    }
}

/// The field that an array of cells stands for.
pub open spec fn field_of(pieces: [[GoTPiece; 4]; 4]) -> Field {
    Seq::new(4, |r: int| Seq::new(4, |c: int| pieces[r][c]))
}

/// The starting position: the stones of player 0 on the first row, those of
/// player 1 on the last.
pub open spec fn start_field() -> Field {
    Seq::new(
        4,
        |r: int|
            Seq::new(
                4,
                |c: int|
                    if r == 0 {
                        GoTPiece::P(Player(0))
                    } else if r == 3 {
                        GoTPiece::P(Player(1))
                    } else {
                        GoTPiece::Empty
                    },
            ),
    )
}

/// A change of one cell changes the number of stones of a player by what
/// the cell holds after over what it held before.
pub proof fn lemma_with_cell(g: Field, r: int, c: int, piece: GoTPiece, p: Player)
    requires
        field_wf(g),
        on_field(r, c),
        piece matches GoTPiece::P(q) ==> q.valid(),
    ensures
        field_wf(with_cell(g, r, c, piece)),
        forall|a: int, b: int|
            on_field(a, b) ==> #[trigger] with_cell(g, r, c, piece)[a][b] == if a == r && b == c {
                piece
            } else {
                g[a][b]
            },
        forall|a: int, b: int| #[trigger]
            look(with_cell(g, r, c, piece), a, b) == if a == r && b == c {
                piece
            } else {
                look(g, a, b)
            },
        stones_of(with_cell(g, r, c, piece), p) == stones_of(g, p) + (if piece == GoTPiece::P(
            p,
        ) {
            1int
        } else {
            0int
        }) - (if g[r][c] == GoTPiece::P(p) {
            1int
        } else {
            0int
        }),
        0 <= stones_of(g, p) <= 16,
        0 <= stones_of(with_cell(g, r, c, piece), p) <= 16,
{
    let g2 = with_cell(g, r, c, piece);
    let before = |i: int| owned(g, p, i);
    let after = |i: int| owned(g2, p, i);
    let x = r * 4 + c;
    lemma_sum_delta(before, after, 16, x, -1, -1);
    lemma_sum_bounds(before, 16, 0, 1);
    lemma_sum_bounds(after, 16, 0, 1);
}

impl GoTPiece {
    /// Whether this is no stone.
    pub fn is_none(&self) -> (b: bool)
        ensures
            b == (*self is Empty),
    {
        *self == GoTPiece::Empty
    }
}

impl GoTPos {
    /// Whether the position is a cell of the board.
    pub fn valid(&self) -> (b: bool)
        ensures
            b == on_field(self.0 as int, self.1 as int),
    {
        self.0 < 4 && self.1 < 4
    }

    /// The number of rows plus the number of columns between this cell and
    /// `pos`.
    pub fn distance(&self, pos: &GoTPos) -> (d: u8)
        requires
            apart(*self, *pos) <= u8::MAX,
        ensures
            d == apart(*self, *pos),
    {
        let rows = if self.0 >= pos.0 {
            self.0 - pos.0
        } else {
            pos.0 - self.0
        };
        let cols = if self.1 >= pos.1 {
            self.1 - pos.1
        } else {
            pos.1 - self.1
        };
        rows + cols
    }

    /// The cell `i` cells from this one in direction `dir`, or `None` if
    /// that is beyond the edge of the board.
    pub fn near_by(&self, dir: &Dir, i: u8) -> (p: Option<Self>)
        ensures
            p is Some <==> on_field(
                row_to(*dir, self.0 as int, i as int),
                col_to(*dir, self.1 as int, i as int),
            ),
            p matches Some(q) ==> q.0 == row_to(*dir, self.0 as int, i as int) && q.1 == col_to(
                *dir,
                self.1 as int,
                i as int,
            ),
    {
        let r = self.0 as i16;
        let c = self.1 as i16;
        let (r2, c2) = match dir {
            Dir::Up => (r - i as i16, c),
            Dir::Down => (r + i as i16, c),
            Dir::Left => (r, c - i as i16),
            Dir::Right => (r, c + i as i16),
        };
        if 0 <= r2 && r2 < 4 && 0 <= c2 && c2 < 4 {
            Some(GoTPos(r2 as u8, c2 as u8))
        } else {
            None
        }
    }
}

impl GoTStep {
    /// A move of a stone of `p` from row `fx`, column `fy` to row `tx`,
    /// column `ty`.
    pub fn new(fx: u8, fy: u8, tx: u8, ty: u8, p: Player) -> (s: Self)
        ensures
            s == (GoTStep { who: p, from: GoTPos(fx, fy), to: GoTPos(tx, ty) }),
    {
        GoTStep { who: p, from: GoTPos(fx, fy), to: GoTPos(tx, ty) }
    }
}

impl Step for GoTStep {
    open spec fn who_spec(&self) -> Player {
        self.who
    }

    open spec fn target(&self) -> (u8, u8) {
        (self.to.0, self.to.1)
    }

    open spec fn source(&self) -> Option<(u8, u8)> {
        Some((self.from.0, self.from.1))
    }

    open spec fn placing() -> bool {
        false
    }

    proof fn lemma_step_is_its_parts(a: Self, b: Self) {
    }

    fn who(&self) -> (p: Player) {
        self.who
    }

    fn places() -> (b: bool) {
        false
    }

    /// Stones are never placed in this game, so no step of this kind exists.
    fn new_put_step(pos: (u8, u8), p: Player) -> (s: Self) {
        GoTStep { who: p, from: GoTPos(pos.0, pos.1), to: GoTPos(pos.0, pos.1) }
    }

    fn new_move_step(from: (u8, u8), to: (u8, u8), p: Player) -> (s: Self) {
        GoTStep { who: p, from: GoTPos(from.0, from.1), to: GoTPos(to.0, to.1) }
    }
}

impl View for GoTBoard {
    type V = Field;

    open spec fn view(&self) -> Field {
        field_of(self.pieces)
    }
}

impl GoTBoard {
    /// Every stone belongs to a player, and the numbers of stones are right.
    pub open spec fn well_formed(&self) -> bool {
        &&& field_wf(self@)
        &&& self.pieces_num[0] == stones_of(self@, Player(0))
        &&& self.pieces_num[1] == stones_of(self@, Player(1))
    }

    /// Whether `step` may be played.
    pub fn can_put(&self, step: &GoTStep) -> (ok: bool)
        ensures
            ok == fits(self@, *step),
    {
        if step.who.0 <= 1 && step.from.valid() && step.to.valid() {
            self.get_piece(&step.from) == GoTPiece::P(step.who) && self.get_piece(&step.to)
                == GoTPiece::Empty && step.from.distance(&step.to) == 1
        } else {
            false
        }
    }

    /// What the cell `pos` holds.
    pub fn get_piece(&self, pos: &GoTPos) -> (piece: GoTPiece)
        requires
            on_field(pos.0 as int, pos.1 as int),
        ensures
            piece == self.pieces[pos.0 as int][pos.1 as int],
    {
        self.pieces[pos.0 as usize][pos.1 as usize]
    }

    /// The cell `pos`, to be written to. Nothing else of the board changes
    /// with it.
    pub fn get_mut_piece(&mut self, pos: &GoTPos) -> (piece: &mut GoTPiece)
        requires
            on_field(pos.0 as int, pos.1 as int),
        ensures
            *piece == old(self).pieces[pos.0 as int][pos.1 as int],
            final(self).pieces_num == old(self).pieces_num,
            final(self).pieces[pos.0 as int][pos.1 as int] == *final(piece),
            forall|r: int, c: int|
                on_field(r, c) && !(r == pos.0 && c == pos.1)
                    ==> #[trigger] final(self).pieces[r][c] == old(self).pieces[r][c],
    {
        &mut self.pieces[pos.0 as usize][pos.1 as usize]
    }

    /// What lies `i` cells from `pos` in direction `dir`; nothing beyond the
    /// edge of the board.
    pub fn get_near(&self, pos: &GoTPos, dir: &Dir, i: u8) -> (piece: GoTPiece)
        ensures
            piece == near(self@, *pos, *dir, i as int),
    {
        match pos.near_by(dir, i) {
            Some(x) => {
                self.get_piece(&x)
            },
            None => GoTPiece::Empty,
        }
    }

    /// Looks at the line through `to` along `d0` and `d1` after a stone of
    /// `who` has come to `to`, takes the stone of the opponent that is to be
    /// taken, and says whether the line could take a stone at all.
    fn eat_on_line(&mut self, to: &GoTPos, who: Player, d0: Dir, d1: Dir) -> (goes_on: bool)
        requires
            old(self).well_formed(),
            who.valid(),
        ensures
            final(self).well_formed(),
            goes_on == can_take(old(self)@, *to, who, d0, d1),
            final(self)@ == after_line(old(self)@, *to, who, d0, d1),
    {
        let mut eat_idx: [u8; 2] = [1, 1];
        if self.get_near(to, &d0, 1) == GoTPiece::P(who) {
            eat_idx[0] = 2;
        }
        if self.get_near(to, &d1, 1) == GoTPiece::P(who) {
            eat_idx[1] = 2;
        }
        // One stone of the mover's own, and only one, must stand next to it.
        if eat_idx[0] + eat_idx[1] != 3 {
            return false;
        }
        let first = self.get_near(to, &d0, eat_idx[0]);
        let second = self.get_near(to, &d1, eat_idx[1]);
        if first.is_none() == second.is_none() {
            return false;
        }
        let other = who.rev();
        if first == GoTPiece::P(other) && self.get_near(to, &d0, eat_idx[0] + 1).is_none() {
            self.take(to, &d0, eat_idx[0], other);
        } else if second == GoTPiece::P(other) && self.get_near(to, &d1, eat_idx[1] + 1).is_none() {
            self.take(to, &d1, eat_idx[1], other);
        }
        true
    }

    /// Takes the stone of `other` that stands `i` cells from `to` in
    /// direction `dir` off the board.
    fn take(&mut self, to: &GoTPos, dir: &Dir, i: u8, other: Player)
        requires
            old(self).well_formed(),
            other.valid(),
            near(old(self)@, *to, *dir, i as int) == GoTPiece::P(other),
        ensures
            final(self).well_formed(),
            final(self)@ == with_cell(
                old(self)@,
                row_to(*dir, to.0 as int, i as int),
                col_to(*dir, to.1 as int, i as int),
                GoTPiece::Empty,
            ),
    {
        let ghost g = self@;
        match to.near_by(dir, i) {
            Some(x) => {
                proof {
                    lemma_with_cell(g, x.0 as int, x.1 as int, GoTPiece::Empty, Player(0));
                    lemma_with_cell(g, x.0 as int, x.1 as int, GoTPiece::Empty, Player(1));
                }
                *self.get_mut_piece(&x) = GoTPiece::Empty;
                assert(self@ =~~= with_cell(g, x.0 as int, x.1 as int, GoTPiece::Empty));
                self.pieces_num[other.0 as usize] -= 1;
            },
            None => {},
        }
    }

    /// Takes the stones that the stone of `step`, which has just moved,
    /// takes: first along the upright line through the cell it has come to,
    /// then along the level line, unless the upright line could not take a
    /// stone.
    pub fn update_eat(&mut self, step: &GoTStep)
        requires
            old(self).well_formed(),
            step.who.valid(),
        ensures
            final(self).well_formed(),
            final(self)@ == after_eat(old(self)@, step.to, step.who),
    {
        if !self.eat_on_line(&step.to, step.who, Dir::Up, Dir::Down) {
            return ;
        }
        let _ = self.eat_on_line(&step.to, step.who, Dir::Left, Dir::Right);
    }
}

impl Board<GoTStep> for GoTBoard {
    open spec fn wf(&self) -> bool {
        self.well_formed()
    }

    open spec fn new_spec() -> Field {
        start_field()
    }

    open spec fn can_put_spec(m: Field, step: GoTStep) -> bool {
        fits(m, step)
    }

    open spec fn put_spec(m: Field, step: GoTStep) -> Field {
        after_eat(moved(m, step), step.to, step.who)
    }

    open spec fn over_spec(m: Field) -> GameState {
        outcome(m)
    }

    fn new() -> (b: Self) {
        let mut pieces = [[GoTPiece::Empty;4];4];
        pieces[0] = [GoTPiece::P(Player(0));4];
        pieces[3] = [GoTPiece::P(Player(1));4];
        let b = GoTBoard { pieces, pieces_num: [4;2] };
        proof {
            assert(b@ =~~= start_field());
            lemma_start_field();
        }
        b
    }

    fn put(&mut self, step: GoTStep) -> (ok: bool) {
        if self.can_put(&step) {
            let ghost g = self@;
            let ghost (fr, fc) = (step.from.0 as int, step.from.1 as int);
            let ghost (tr, tc) = (step.to.0 as int, step.to.1 as int);
            let ghost g1 = with_cell(g, fr, fc, GoTPiece::Empty);
            proof {
                lemma_with_cell(g, fr, fc, GoTPiece::Empty, Player(0));
                lemma_with_cell(g, fr, fc, GoTPiece::Empty, Player(1));
                lemma_with_cell(g1, tr, tc, GoTPiece::P(step.who), Player(0));
                lemma_with_cell(g1, tr, tc, GoTPiece::P(step.who), Player(1));
            }
            *self.get_mut_piece(&step.from) = GoTPiece::Empty;
            *self.get_mut_piece(&step.to) = GoTPiece::P(step.who);
            assert(self@ =~~= moved(g, step));
            self.update_eat(&step);
            return true;
        }
        false
    }

    fn over(&self) -> (s: GameState) {
        if self.pieces_num[0] <= 1 {
            GameState::Over(OutCome::Winer(Player(0)))
        } else if self.pieces_num[1] <= 1 {
            GameState::Over(OutCome::Winer(Player(1)))
        } else {
            GameState::Running
        }
    }

    fn duplicate(&self) -> (b: Self) {
        self.clone()
    }
}

/// At the start each player has four stones.
pub proof fn lemma_start_field()
    ensures
        field_wf(start_field()),
        stones_of(start_field(), Player(0)) == 4,
        stones_of(start_field(), Player(1)) == 4,
{
    reveal_with_fuel(sum_to, 17);
}

/// A cell as text: `P(Player(0))` or `P(Player(1))` for a stone, `Empty`
/// for none.
pub open spec fn piece_text(piece: GoTPiece) -> Seq<char> {
    match piece {
        GoTPiece::P(p) => seq!['P', '(', 'P', 'l', 'a', 'y', 'e', 'r', '('] + decimal(p.0 as nat)
            + seq![')', ')'],
        GoTPiece::Empty => seq!['E', 'm', 'p', 't', 'y'],
    }
}

/// The first `n` cells of a row as text, with a comma and a blank between
/// each two.
pub open spec fn cells_text(row: Seq<GoTPiece>, n: nat) -> Seq<char>
    decreases n,
{
    if n == 0 {
        Seq::empty()
    } else if n == 1 {
        piece_text(row[0])
    } else {
        cells_text(row, (n - 1) as nat) + seq![',', ' '] + piece_text(row[n - 1])
    }
}

/// A row as text: its cells as a list in square brackets.
pub open spec fn row_text(row: Seq<GoTPiece>) -> Seq<char> {
    seq!['['] + cells_text(row, row.len()) + seq![']']
}

/// The first `n` rows as text, with a comma and a blank between each two.
pub open spec fn rows_text(g: Field, n: nat) -> Seq<char>
    decreases n,
{
    if n == 0 {
        Seq::empty()
    } else if n == 1 {
        row_text(g[0])
    } else {
        rows_text(g, (n - 1) as nat) + seq![',', ' '] + row_text(g[n - 1])
    }
}

/// The line for the log: the rows as a list in square brackets, on a line of
/// its own.
pub open spec fn log_line(g: Field) -> Seq<char> {
    seq!['\n', '['] + rows_text(g, g.len()) + seq![']', '\n']
}

/// Writes a cell as text to the end of `out`.
fn push_piece(out: &mut Vec<char>, piece: GoTPiece)
    ensures
        final(out)@ == old(out)@ + piece_text(piece),
{
    match piece {
        GoTPiece::P(p) => {
            out.push('P');
            out.push('(');
            out.push('P');
            out.push('l');
            out.push('a');
            out.push('y');
            out.push('e');
            out.push('r');
            out.push('(');
            push_decimal(out, p.0 as u16);
            out.push(')');
            out.push(')');
        },
        GoTPiece::Empty => {
            out.push('E');
            out.push('m');
            out.push('p');
            out.push('t');
            out.push('y');
        },
    }
}

/// Writes a row as text to the end of `out`.
fn push_row(out: &mut Vec<char>, row: &[GoTPiece; 4])
    ensures
        final(out)@ == old(out)@ + row_text(row@),
{
    out.push('[');
    let mut k: usize = 0;
    while k < 4
        invariant
            k <= 4,
            out@ == old(out)@ + seq!['['] + cells_text(row@, k as nat),
        decreases 4 - k,
    {
        if k > 0 {
            out.push(',');
            out.push(' ');
        }
        push_piece(out, row[k]);
        k += 1;
    }
    out.push(']');
}

impl Display for GoTBoard {
    open spec fn showable(&self) -> bool {
        true
    }

    /// `0` for a stone of player 0, `x` for a stone of player 1, and a blank
    /// for anything else.
    open spec fn glyph(&self, r: int, c: int) -> char {
        match self.pieces[r][c] {
            GoTPiece::P(Player(0)) => '0',
            GoTPiece::P(Player(1)) => 'x',
            _ => ' ',
        }
    }

    open spec fn size_spec(&self) -> (u8, u8) {
        (4, 4)
    }

    fn to_array(&self) -> (arr: Vec<Vec<char>>) {
        let mut arr: Vec<Vec<char>> = Vec::new();
        let mut i: u8 = 0;
        while i < 4
            invariant
                i <= 4,
                arr@.len() == i,
                forall|r: int| 0 <= r < i ==> (#[trigger] arr@[r])@.len() == 4,
                forall|r: int, c: int|
                    0 <= r < i && 0 <= c < 4 ==> (#[trigger] arr@[r]@[c]) == self.glyph(r, c),
            decreases 4 - i,
        {
            let mut row: Vec<char> = Vec::new();
            let mut j: u8 = 0;
            while j < 4
                invariant
                    i < 4,
                    j <= 4,
                    row@.len() == j,
                    forall|c: int| 0 <= c < j ==> #[trigger] row@[c] == self.glyph(i as int, c),
                decreases 4 - j,
            {
                let p = self.get_piece(&GoTPos(i, j));
                let ch = match p {
                    GoTPiece::P(Player(0)) => '0',
                    GoTPiece::P(Player(1)) => 'x',
                    _ => ' ',
                };
                row.push(ch);
                j += 1;
            }
            arr.push(row);
            i += 1;
        }
        arr
    }

    fn size(&self) -> (s: (u8, u8)) {
        (4, 4)
    }

    /// The cells of the board, for the log.
    fn to_string(&self) -> (s: String)
        ensures
            s@ == log_line(self@),
    {
        let ghost g = self@;
        let mut out: Vec<char> = Vec::new();
        out.push('\n');
        out.push('[');
        let mut k: usize = 0;
        while k < 4
            invariant
                k <= 4,
                g == self@,
                out@ == seq!['\n', '['] + rows_text(g, k as nat),
            decreases 4 - k,
        {
            if k > 0 {
                out.push(',');
                out.push(' ');
            }
            assert(g[k as int] =~= self.pieces[k as int]@);
            push_row(&mut out, &self.pieces[k]);
            k += 1;
        }
        out.push(']');
        out.push('\n');
        string_of(&out)
    }
}

} // verus!
