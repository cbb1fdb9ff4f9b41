//! Five-in-a-row on a fifteen by fifteen board.
//!
//! The board keeps, for each player, a count of that player's runs of each
//! kind. The counts are brought up to date with every stone placed, and they
//! always equal what a scan of the whole grid would count.

pub mod candidates;
pub mod laws;
pub mod lemmas;
pub mod pattern;
pub mod placing;
pub mod rescan;
pub mod util;

use candidates::candidates;
use crate::ai::{get_next_best_step, is_first_best, AI, SEARCH_DEPTH};
use crate::base::{Board, GameState, OutCome, Player, Step};
use crate::display::Display;
use crate::text::{decimal, list_text, push_decimal, push_list, string_of};
use pattern::{count, empty_grid, free, full, has_five, points, put_grid, score_of, stones, Grid};
use placing::{
    lemma_axis_count_bounds, lemma_empty_grid, lemma_five_stays, lemma_full_count,
    lemma_stones_put,
};
use vstd::prelude::*;

verus! {

/// A cell of the board, by row and column.
#[derive(PartialEq, Eq, Structural, Hash, Copy, Clone, Debug)]
pub struct GoPos(pub u8, pub u8);

/// What a cell holds.
#[derive(PartialEq, Eq, Structural, Copy, Clone, Debug)]
pub enum GoPiece {
    P(Player),
    Empty,
}

/// The pattern counters of one player.
#[derive(Copy, Clone, Debug)]
pub struct GoScores {
    /// 1 once the player has five or more in a row, else 0.
    pub five: u8,
    /// The numbers of open runs of one, two, three and four stones.
    pub non_block: [u16; 4],
    /// The numbers of half-open runs of two, three and four stones.
    pub block: [u16; 3],
}

/// A stone of one player on one cell.
#[derive(PartialEq, Eq, Structural, Copy, Clone, Debug)]
pub struct GoStep {
    pub who: Player,
    pub pos: GoPos,
}

/// A position of five-in-a-row.
#[derive(Copy, Clone, Debug)]
pub struct GoBoard {
    pub pieces: [[GoPiece; 15]; 15],
    pub pieces_num: u8,
    /// The counters of player 0 and of player 1.
    pub scores: [GoScores; 2],
}

/// The grid that an array of cells stands for.
pub open spec fn grid_of(pieces: [[GoPiece; 15]; 15]) -> Grid {
    Seq::new(15, |r: int| Seq::new(15, |c: int| pieces[r][c]))
}

impl GoScores {
    /// The counter of bucket `kind`.
    pub open spec fn bucket(self, kind: int) -> int {
        if 0 <= kind < 4 {
            self.non_block[kind] as int
        } else if 4 <= kind < 7 {
            self.block[kind - 4] as int
        } else {
            0
        }
    }

    /// The counters say what a scan of the grid `g` counts for player `p`.
    pub open spec fn tallies(self, g: Grid, p: Player) -> bool {
        &&& self.five <= 1
        &&& self.five == 1 <==> has_five(g, p)
        &&& forall|kind: int| 0 <= kind < 7 ==> #[trigger] self.bucket(kind) == count(g, p, kind)
    }
}

impl GoStep {
    /// The step is made by one of the two players and onto the empty cell of
    /// the grid `g` that it names.
    pub open spec fn fits(self, g: Grid) -> bool {
        self.who.valid() && free(g, self.pos.0 as int, self.pos.1 as int)
    }

    /// A stone of `p` on row `x`, column `y`.
    pub fn new(x: u8, y: u8, p: Player) -> (s: Self)
        ensures
            s.who == p,
            s.pos == GoPos(x, y),
    {
        GoStep { who: p, pos: GoPos(x, y) }
    }
}

impl Step for GoStep {
    open spec fn who_spec(&self) -> Player {
        self.who
    }

    open spec fn target(&self) -> (u8, u8) {
        (self.pos.0, self.pos.1)
    }

    open spec fn source(&self) -> Option<(u8, u8)> {
        None
    }

    open spec fn placing() -> bool {
        true
    }

    proof fn lemma_step_is_its_parts(a: Self, b: Self) {
    }

    fn who(&self) -> (p: Player) {
        self.who
    }

    fn places() -> (b: bool) {
        true
    }

    fn new_put_step(pos: (u8, u8), p: Player) -> (s: Self) {
        GoStep { who: p, pos: GoPos(pos.0, pos.1) }
    }

    /// Stones are never moved in this game, so no step of this kind exists.
    fn new_move_step(from: (u8, u8), to: (u8, u8), p: Player) -> (s: Self) {
        GoStep { who: p, pos: GoPos(to.0, to.1) }
    }
}

impl View for GoBoard {
    type V = Grid;

    open spec fn view(&self) -> Grid {
        grid_of(self.pieces)
    }
}

/// How the game stands on the grid `g`: won by the player who has five in a
/// row (by player 0 if both have), drawn if no cell is empty, else running.
pub open spec fn outcome(g: Grid) -> GameState {
    if has_five(g, Player(0)) {
        GameState::Over(OutCome::Winer(Player(0)))
    } else if has_five(g, Player(1)) {
        GameState::Over(OutCome::Winer(Player(1)))
    } else if full(g) {
        GameState::Over(OutCome::Draw)
    } else {
        GameState::Running
    }
}

impl Board<GoStep> for GoBoard {
    open spec fn wf(&self) -> bool {
        self.well_formed()
    }

    open spec fn new_spec() -> Grid {
        empty_grid()
    }

    open spec fn can_put_spec(m: Grid, step: GoStep) -> bool {
        step.fits(m)
    }

    open spec fn put_spec(m: Grid, step: GoStep) -> Grid {
        put_grid(m, step.pos.0 as int, step.pos.1 as int, step.who)
    }

    open spec fn over_spec(m: Grid) -> GameState {
        outcome(m)
    }

    fn new() -> (b: Self) {
        let b = GoBoard {
            pieces: [[GoPiece::Empty;15];15],
            pieces_num: 0,
            scores: [GoScores::new(), GoScores::new()],
        };
        proof {
            assert(b@ =~~= empty_grid());
            lemma_empty_grid(Player(0));
            lemma_empty_grid(Player(1));
        }
        b
    }

    /// Places the stone of `step` if that is legal, and brings the counters
    /// up to date. A win that is noted stays noted: placing more stones, in
    /// the winning line or elsewhere, does not change it.
    fn put(&mut self, step: GoStep) -> (ok: bool)
        ensures
            old(self).scores[0].five == 1 ==> final(self).scores[0].five == 1,
            old(self).scores[1].five == 1 ==> final(self).scores[1].five == 1,
            final(self).pieces_num == old(self).pieces_num + if ok {
                1int
            } else {
                0int
            },
    {
        if self.can_put(&step) {
            let ghost g = self@;
            proof {
                if has_five(g, Player(0)) {
                    lemma_five_stays(g, step.pos.0 as int, step.pos.1 as int, step.who, Player(0));
                }
                if has_five(g, Player(1)) {
                    lemma_five_stays(g, step.pos.0 as int, step.pos.1 as int, step.who, Player(1));
                }
            }
            self.update_scores(&step);
            *self.get_mut_piece(&step.pos) = GoPiece::P(step.who);
            proof {
                lemma_stones_put(g, step.pos.0 as int, step.pos.1 as int, step.who);
                assert(self@ =~~= put_grid(g, step.pos.0 as int, step.pos.1 as int, step.who));
            }
            self.pieces_num += 1;
            return true;
        }
        false
    }

    fn over(&self) -> (s: GameState) {
        proof {
            lemma_full_count(self@);
        }
        if self.scores[0].five == 1 {
            GameState::Over(OutCome::Winer(Player(0)))
        } else if self.scores[1].five == 1 {
            GameState::Over(OutCome::Winer(Player(1)))
        } else if self.pieces_num == 225 {
            GameState::Over(OutCome::Draw)
        } else {
            GameState::Running
        }
    }

    fn duplicate(&self) -> (b: Self) {
        self.clone()
    }
}

/// The points of a player stay far inside the range of `i32`, whatever the
/// grid.
pub proof fn lemma_points_bounded(g: Grid, p: Player)
    ensures
        0 <= points(g, p) <= 1_500_000,
{
    assert forall|kind: int| 0 <= kind < 7 implies 0 <= #[trigger] count(g, p, kind) <= 900 by {
        lemma_axis_count_bounds(g, 0, p, kind);
        lemma_axis_count_bounds(g, 1, p, kind);
        lemma_axis_count_bounds(g, 2, p, kind);
        lemma_axis_count_bounds(g, 3, p, kind);
    }
}

impl AI<GoStep> for GoBoard {
    open spec fn score_spec(m: Grid, player: Player) -> int {
        score_of(m, player)
    }

    open spec fn steps_spec(m: Grid, player: Player, deep: u8) -> Seq<GoStep> {
        candidates(m, player, deep)
    }

    proof fn lemma_score_bounded(m: Grid, player: Player) {
        lemma_points_bounded(m, player);
        lemma_points_bounded(m, player.other());
    }

    /// The points of `player` less the points of the opponent.
    fn score(&self, player: Player) -> (s: i32) {
        let p0_score = self.scores[0].sum();
        let p1_score = self.scores[1].sum();
        if player.0 == 0 {
            p0_score - p1_score
        } else {
            p1_score - p0_score
        }
    }

    /// A step of `player` onto each empty cell that is worth trying with
    /// `deep` plies left, the most promising first. However many plies are
    /// left, there is such a step as long as a cell of the board is empty.
    fn get_possible_steps(&self, player: Player, deep: u8) -> (v: Vec<GoStep>)
        ensures
            v@.len() == 0 <==> full(self@),
    {
        self.ordered_steps(player, deep)
    }
}

impl GoBoard {
    /// The step that the search picks for `player` with the standard ply
    /// budget: `None` exactly when no cell of the board is empty, and else
    /// a legal step of `player`, the first of the steps tried that has the
    /// largest minimax value.
    pub fn best_step_for(&self, player: Player) -> (best: Option<GoStep>)
        requires
            self.well_formed(),
            player.valid(),
        ensures
            best is None <==> full(self@),
            best matches Some(s) ==> s.who == player && s.fits(self@) && exists|i: int|
                is_first_best::<GoBoard, GoStep>(
                    self@,
                    candidates(self@, player, SEARCH_DEPTH),
                    player,
                    SEARCH_DEPTH,
                    i,
                ) && candidates(self@, player, SEARCH_DEPTH)[i] == s,
    {
        if self.get_possible_steps(player, SEARCH_DEPTH).len() == 0 {
            return None;
        }
        get_next_best_step(self, player)
    }
}

/// The character that stands for a cell: `0` for a stone of player 0, `x`
/// for a stone of player 1, and a blank for anything else.
pub open spec fn glyph_of(piece: GoPiece) -> char {
    match piece {
        GoPiece::P(Player(0)) => '0',
        GoPiece::P(Player(1)) => 'x',
        _ => ' ',
    }
}

/// The counters of one player as text: whether the win is noted, then the
/// list of the open runs and the list of the half-open runs.
pub open spec fn counters_text(s: GoScores) -> Seq<char> {
    decimal(s.five as nat) + list_text(s.non_block@) + list_text(s.block@)
}

/// The line for the log: the counters of player 0 after `0:`, a blank, and
/// the counters of player 1 after `x:`.
pub open spec fn log_line(zero: GoScores, one: GoScores) -> Seq<char> {
    seq!['0', ':'] + counters_text(zero) + seq![' ', 'x', ':'] + counters_text(one)
}

/// Writes the counters of one player to the end of `out`.
fn push_counters(out: &mut Vec<char>, s: &GoScores)
    ensures
        final(out)@ == old(out)@ + counters_text(*s),
{
    push_decimal(out, s.five as u16);
    push_list(out, &s.non_block);
    push_list(out, &s.block);
}

impl Display for GoBoard {
    open spec fn showable(&self) -> bool {
        true
    }

    open spec fn glyph(&self, r: int, c: int) -> char {
        glyph_of(self.pieces[r][c])
    }

    open spec fn size_spec(&self) -> (u8, u8) {
        (15, 15)
    }

    /// The grid as rows of characters. The counters are not shown.
    fn to_array(&self) -> (arr: Vec<Vec<char>>) {
        let mut arr: Vec<Vec<char>> = Vec::new();
        let mut i: u8 = 0;
        while i < 15
            invariant
                i <= 15,
                arr@.len() == i,
                forall|r: int| 0 <= r < i ==> (#[trigger] arr@[r])@.len() == 15,
                forall|r: int, c: int|
                    0 <= r < i && 0 <= c < 15 ==> (#[trigger] arr@[r]@[c]) == glyph_of(
                        self.pieces[r][c],
                    ),
            decreases 15 - i,
        {
            let mut row: Vec<char> = Vec::new();
            let mut j: u8 = 0;
            while j < 15
                invariant
                    i < 15,
                    j <= 15,
                    row@.len() == j,
                    forall|c: int|
                        0 <= c < j ==> #[trigger] row@[c] == glyph_of(self.pieces[i as int][c]),
                decreases 15 - j,
            {
                let p = self.get_piece(&GoPos(i, j));
                let ch = match p {
                    GoPiece::P(Player(0)) => '0',
                    GoPiece::P(Player(1)) => 'x',
                    _ => ' ',
                };
                row.push(ch);
                j += 1;
            }
            arr.push(row);
            i += 1;
        }
        arr
    }

    fn size(&self) -> (s: (u8, u8)) {
        (15, 15)
    }

    /// The counters of both players, for the log.
    fn to_string(&self) -> (s: String)
        ensures
            s@ == log_line(self.scores[0], self.scores[1]),
    {
        let mut out: Vec<char> = Vec::new();
        out.push('0');
        out.push(':');
        push_counters(&mut out, &self.scores[0]);
        out.push(' ');
        out.push('x');
        out.push(':');
        push_counters(&mut out, &self.scores[1]);
        string_of(&out)
    }
}

} // verus!
