//! The moving parts of the scoring engine: walking the lines through a cell
//! and keeping the pattern counters in step with the board.

use crate::base::Player;
use super::{grid_of, GoBoard, GoPiece, GoPos, GoScores, GoStep};
use super::lemmas::{lemma_arm_at_least, lemma_arm_exact, lemma_arm_limit};
use super::pattern::{
    around, axis_delta, col_at, completes_five, cond_spec, count, demoted, five_weight, free,
    gain_within, grid_wf, has_five, held, merged_len, on_board, own, part_score_of, put_grid,
    removed, row_at, slot, touches, toward, weight, wins_at, wins_within, Grid,
};
use super::placing::{lemma_cond_facts, lemma_five_put, lemma_mixed_step, mixed_count};
use vstd::prelude::*;

verus! {

/// One of the eight ways to walk from a cell: an axis, and whether to walk it
/// forward (to the right or downward) or backward.
#[derive(PartialEq, Eq, Structural, Copy, Clone, Debug)]
pub enum Dir {
    Horiz(bool),
    Verti(bool),
    /// The diagonal that runs down and to the left.
    FSlash(bool),
    /// The diagonal that runs down and to the right.
    BSlash(bool),
}

impl Dir {
    /// The number of the axis: 0 to 3.
    pub open spec fn axis(self) -> int {
        match self {
            Dir::Horiz(_) => 0,
            Dir::Verti(_) => 1,
            Dir::FSlash(_) => 2,
            Dir::BSlash(_) => 3,
        }
    }

    /// 1 for forward, -1 for backward.
    pub open spec fn sign(self) -> int {
        let forward = match self {
            Dir::Horiz(b) => b,
            Dir::Verti(b) => b,
            Dir::FSlash(b) => b,
            Dir::BSlash(b) => b,
        };
        if forward {
            1
        } else {
            -1
        }
    }

    /// The eight directions in a fixed order: each axis forward, then
    /// backward.
    pub fn nth(i: usize) -> (d: Dir)
        requires
            i < 8,
        ensures
            d.axis() == i / 2,
            d.sign() == if i % 2 == 0 {
                1int
            } else {
                -1int
            },
    {
        let forward = i % 2 == 0;
        match i / 2 {
            0 => Dir::Horiz(forward),
            1 => Dir::Verti(forward),
            2 => Dir::FSlash(forward),
            _ => Dir::BSlash(forward),
        }
    }

    /// The change of row and column that one cell in this direction makes.
    pub fn get_pos_offset(&self) -> (off: (i8, i8))
        ensures
            off.0 == row_at(self.axis(), 0, self.sign()),
            off.1 == col_at(self.axis(), 0, self.sign()),
    {
        match *self {
            Dir::Horiz(true) => (0, 1),
            Dir::Horiz(false) => (0, -1),
            Dir::Verti(true) => (1, 0),
            Dir::Verti(false) => (-1, 0),
            Dir::FSlash(true) => (1, -1),
            Dir::FSlash(false) => (-1, 1),
            Dir::BSlash(true) => (1, 1),
            Dir::BSlash(false) => (-1, -1),
        }
    }
}

/// What lies next to a cell in one direction: the owner of the neighbouring
/// run, its length up to five, and whether its far end is closed.
#[derive(PartialEq, Eq, Structural, Copy, Clone, Debug)]
pub struct Cond {
    pub player: Player,
    /// The number of stones, all of one player; 0 if the neighbour holds none.
    pub num: u8,
    /// Whether the far end is closed by the edge or by the other player.
    pub block: bool,
}

impl GoPos {
    /// Whether the position is a cell of the board.
    pub fn valid(&self) -> (b: bool)
        ensures
            b == on_board(self.0 as int, self.1 as int),
    {
        self.0 < 15 && self.1 < 15
    }

    /// Moves the position one cell in direction `dir` if that cell is on the
    /// board, and says whether it is. A position that would leave the board
    /// stays where it is.
    pub fn dir_add(&mut self, dir: &Dir) -> (ok: bool)
        ensures
            ok == on_board(
                row_at(dir.axis(), old(self).0 as int, dir.sign()),
                col_at(dir.axis(), old(self).1 as int, dir.sign()),
            ),
            ok ==> final(self).0 == row_at(dir.axis(), old(self).0 as int, dir.sign())
                && final(self).1 == col_at(dir.axis(), old(self).1 as int, dir.sign()),
            !ok ==> *final(self) == *old(self),
    {
        let offset = dir.get_pos_offset();
        let r: i16 = self.0 as i16 + offset.0 as i16;
        let c: i16 = self.1 as i16 + offset.1 as i16;
        if 0 <= r && r < 15 && 0 <= c && c < 15 {
            self.0 = r as u8;
            self.1 = c as u8;
            true
        } else {
            false
        }
    }
}

/// Looks from `pos` in direction `dir`: who owns the stones next to it, how
/// many of them lie in a row, up to five, and whether the row is closed at
/// its far end.
pub fn get_cond_by_dir(piece: &[[GoPiece; 15]; 15], pos: &GoPos, dir: &Dir) -> (cond: Cond)
    ensures
        cond == cond_spec(
            grid_of(*piece),
            dir.axis(),
            pos.0 as int,
            pos.1 as int,
            dir.sign(),
        ),
{
    let ghost g = grid_of(*piece);
    let ghost o = dir.axis();
    let ghost s = dir.sign();
    let ghost r = pos.0 as int;
    let ghost c = pos.1 as int;
    let mut new_pos = *pos;
    if !new_pos.dir_add(dir) {
        return Cond { player: Player(0), num: 0, block: true };
    }
    match piece[new_pos.0 as usize][new_pos.1 as usize] {
        GoPiece::Empty => Cond { player: Player(0), num: 0, block: false },
        GoPiece::P(player) => {
            let mut num: u8 = 1;
            let mut block = false;
            let mut going = true;
            while going && num < 5
                invariant
                    s == 1 || s == -1,
                    o == dir.axis(),
                    s == dir.sign(),
                    r == pos.0 as int,
                    c == pos.1 as int,
                    g == grid_of(*piece),
                    1 <= num <= 5,
                    going ==> new_pos.0 == row_at(o, r, toward(s, num as int)),
                    going ==> new_pos.1 == col_at(o, c, toward(s, num as int)),
                    forall|j: int|
                        1 <= j <= num ==> held(
                            g,
                            #[trigger] row_at(o, r, toward(s, j)),
                            col_at(o, c, toward(s, j)),
                            player,
                        ),
                    going ==> !block,
                    !going ==> num < 5,
                    !going ==> !held(
                        g,
                        row_at(o, r, toward(s, num + 1)),
                        col_at(o, c, toward(s, num + 1)),
                        player,
                    ) && (block <==> !free(
                        g,
                        row_at(o, r, toward(s, num + 1)),
                        col_at(o, c, toward(s, num + 1)),
                    )),
                decreases (if going { 1int } else { 0int }), 5 - num,
            {
                if !new_pos.dir_add(dir) {
                    block = true;
                    going = false;
                } else {
                    match piece[new_pos.0 as usize][new_pos.1 as usize] {
                        GoPiece::Empty => {
                            going = false;
                        },
                        GoPiece::P(x) => {
                            if x == player {
                                num += 1;
                            } else {
                                block = true;
                                going = false;
                            }
                        },
                    }
                }
            }
            proof {
                if going {
                    lemma_arm_at_least(g, o, r, c, s, player, 5, 5);
                    lemma_arm_limit(g, o, r, c, s, player, 5);
                } else {
                    lemma_arm_exact(g, o, r, c, s, player, 5, num as nat);
                }
            }
            Cond { player, num, block }
        },
    }
}

/// The points that five in a row are worth.
pub const FIVE: i32 = 5000;

/// The bucket that a run of `flag` stones is counted in: among the half-open
/// runs if `block`, else among the open ones; -1 if it is not counted.
pub open spec fn bucket_of(flag: u8, block: bool) -> int {
    slot(
        flag as int,
        if block {
            1
        } else {
            2
        },
    )
}

/// The points that a run of `flag` stones is worth, half-open if `block`,
/// else open.
pub open spec fn worth(flag: u8, block: bool) -> int {
    if flag >= 5 {
        five_weight()
    } else {
        weight(bucket_of(flag, block))
    }
}

impl GoScores {
    /// Counters that count nothing.
    pub fn new() -> (s: Self)
        ensures
            s.five == 0,
            forall|kind: int| 0 <= kind < 7 ==> #[trigger] s.bucket(kind) == 0,
    {
        GoScores { five: 0, non_block: [0;4], block: [0;3] }
    }

    /// The points that one run of `flag` stones is worth: the weight of a win
    /// for five or more, else the weight of its bucket, and nothing for a run
    /// that is not counted.
    pub fn get(flag: u8, block: bool) -> (points: i32)
        ensures
            points == worth(flag, block),
    {
        if flag >= 5 {
            return FIVE;
        }
        if block {
            match flag {
                2 => 2,
                3 => 32,
                4 => 256,
                _ => 0,
            }
        } else {
            match flag {
                2 => 32,
                3 => 256,
                4 => 1024,
                _ => 0,
            }
        }
    }

    /// Counts one more run of `flag` stones. Five or more in a row are noted
    /// as the win, once and for all; a run that belongs in no bucket is not
    /// counted.
    pub fn insert(&mut self, flag: u8, block: bool)
        requires
            bucket_of(flag, block) >= 0 ==> old(self).bucket(bucket_of(flag, block)) < u16::MAX,
        ensures
            final(self).five == if flag >= 5 {
                1u8
            } else {
                old(self).five
            },
            forall|kind: int|
                0 <= kind < 7 ==> #[trigger] final(self).bucket(kind) == old(self).bucket(kind)
                    + if kind == bucket_of(flag, block) {
                    1int
                } else {
                    0int
                },
    {
        if flag >= 5 {
            self.five = 1;
            return ;
        }
        if block {
            if flag >= 2 {
                assert(old(self).bucket(flag + 2) < u16::MAX);
                self.block[flag as usize - 2] += 1;
            }
        } else {
            if flag >= 1 {
                assert(old(self).bucket(flag - 1) < u16::MAX);
                self.non_block[flag as usize - 1] += 1;
            }
        }
    }

    /// Counts one run of `flag` stones less and says whether it did. Nothing
    /// is taken from a bucket that is empty, and a run that belongs in no
    /// bucket is not counted.
    pub fn remove(&mut self, flag: u8, block: bool) -> (done: bool)
        ensures
            done == (bucket_of(flag, block) >= 0 && old(self).bucket(bucket_of(flag, block)) > 0),
            final(self).five == old(self).five,
            forall|kind: int|
                0 <= kind < 7 ==> #[trigger] final(self).bucket(kind) == old(self).bucket(kind)
                    - if done && kind == bucket_of(flag, block) {
                    1int
                } else {
                    0int
                },
    {
        if (block && (flag < 2 || flag > 4)) || (!block && (flag < 1 || flag > 4)) {
            return false;
        }
        let done;
        if block && self.block[flag as usize - 2] > 0 {
            self.block[flag as usize - 2] -= 1;
            done = true;
        } else if !block && self.non_block[flag as usize - 1] > 0 {
            self.non_block[flag as usize - 1] -= 1;
            done = true;
        } else {
            done = false;
        }
        done
    }

    /// The points of the player: the weight of each run counted, and the
    /// weight of the win if it is noted.
    pub fn sum(&self) -> (total: i32)
        ensures
            total == self.five * five_weight() + self.bucket(0) * weight(0) + self.bucket(1)
                * weight(1) + self.bucket(2) * weight(2) + self.bucket(3) * weight(3)
                + self.bucket(4) * weight(4) + self.bucket(5) * weight(5) + self.bucket(6)
                * weight(6),
    {
        let mut total: i32 = (self.five as i32) * FIVE;
        total = total + (self.non_block[1] as i32) * 32;
        total = total + (self.non_block[2] as i32) * 256;
        total = total + (self.non_block[3] as i32) * 1024;
        total = total + (self.block[0] as i32) * 2;
        total = total + (self.block[1] as i32) * 32;
        total = total + (self.block[2] as i32) * 256;
        total
    }
}

/// Takes the run on one side of a new stone of `who` out of its bucket. A
/// run of the opponent that was open at both ends goes on to the bucket of
/// half-open runs, for the stone closes one end of it.
fn settle_side(mine: &mut GoScores, theirs: &mut GoScores, who: Player, c: &Cond)
    requires
        who.valid(),
        c.num <= 5,
        forall|kind: int|
            0 <= kind < 7 ==> removed(*c, who, kind) <= #[trigger] old(mine).bucket(kind),
        forall|kind: int|
            0 <= kind < 7 ==> removed(*c, who.other(), kind) <= #[trigger] old(theirs).bucket(
                kind,
            ) < u16::MAX,
        c.num > 0 ==> c.player.valid(),
    ensures
        final(mine).five == old(mine).five,
        final(theirs).five == old(theirs).five,
        forall|kind: int|
            0 <= kind < 7 ==> #[trigger] final(mine).bucket(kind) == old(mine).bucket(kind)
                - removed(*c, who, kind),
        forall|kind: int|
            0 <= kind < 7 ==> #[trigger] final(theirs).bucket(kind) == old(theirs).bucket(kind)
                - removed(*c, who.other(), kind) + demoted(*c, who, who.other(), kind),
{
    if c.num > 0 {
        if c.player == who {
            mine.remove(c.num, c.block);
        } else {
            theirs.remove(c.num, c.block);
            if !c.block && c.num < 5 {
                theirs.insert(c.num, true);
            }
        }
    }
}

/// Settles the counters for one axis through a new stone of `who`, given
/// what lies on the two sides of it: the runs on the sides leave their
/// buckets, a run of the opponent that the stone closes enters the bucket of
/// its new shape, and the run that the stone forms enters its bucket, or is
/// noted as the win if it has five stones or more.
fn settle_axis(mine: &mut GoScores, theirs: &mut GoScores, who: Player, f: &Cond, b: &Cond)
    requires
        who.valid(),
        f.num <= 5,
        b.num <= 5,
        f.num > 0 ==> f.player.valid(),
        b.num > 0 ==> b.player.valid(),
        forall|kind: int|
            0 <= kind < 7 ==> removed(*f, who, kind) + removed(*b, who, kind) <= #[trigger] old(
                mine,
            ).bucket(kind) <= 900,
        forall|kind: int|
            0 <= kind < 7 ==> removed(*f, who.other(), kind) + removed(*b, who.other(), kind)
                <= #[trigger] old(theirs).bucket(kind) <= 900,
    ensures
        final(mine).five == if merged_len(*f, *b, who) >= 5 {
            1u8
        } else {
            old(mine).five
        },
        final(theirs).five == old(theirs).five,
        forall|kind: int|
            0 <= kind < 7 ==> #[trigger] final(mine).bucket(kind) == old(mine).bucket(kind)
                + axis_delta(*f, *b, who, who, kind),
        forall|kind: int|
            0 <= kind < 7 ==> #[trigger] final(theirs).bucket(kind) == old(theirs).bucket(kind)
                + axis_delta(*f, *b, who, who.other(), kind),
{
    settle_side(mine, theirs, who, f);
    settle_side(mine, theirs, who, b);
    let mut len: u8 = 1;
    let mut ends: u8 = 0;
    if f.num > 0 && f.player == who {
        len += f.num;
        if !f.block {
            ends += 1;
        }
    } else if f.num == 0 && !f.block {
        ends += 1;
    }
    if b.num > 0 && b.player == who {
        len += b.num;
        if !b.block {
            ends += 1;
        }
    } else if b.num == 0 && !b.block {
        ends += 1;
    }
    if ends == 2 {
        mine.insert(len, false);
    } else if ends == 1 || len >= 5 {
        mine.insert(len, true);
    }
}

impl GoBoard {
    /// The grid and the counters agree: every stone belongs to a player, the
    /// counters of both players say what a scan of the grid counts, and the
    /// number of stones is right.
    pub open spec fn well_formed(&self) -> bool {
        &&& grid_wf(self@)
        &&& self.scores[0].tallies(self@, Player(0))
        &&& self.scores[1].tallies(self@, Player(1))
        &&& self.pieces_num == super::pattern::stones(self@)
    }

    /// Whether `step` may be played: a stone of one of the two players onto
    /// an empty cell of the board.
    pub fn can_put(&self, step: &GoStep) -> (ok: bool)
        ensures
            ok == step.fits(self@),
    {
        if step.who.0 <= 1 && step.pos.valid() {
            self.get_piece(&step.pos) == GoPiece::Empty
        } else {
            false
        }
    }

    /// What the cell `pos` holds.
    pub fn get_piece(&self, pos: &GoPos) -> (piece: GoPiece)
        requires
            on_board(pos.0 as int, pos.1 as int),
        ensures
            piece == self.pieces[pos.0 as int][pos.1 as int],
    {
        self.pieces[pos.0 as usize][pos.1 as usize]
    }

    /// The cell `pos`, to be written to. Nothing else of the board changes
    /// with it.
    pub fn get_mut_piece(&mut self, pos: &GoPos) -> (piece: &mut GoPiece)
        requires
            on_board(pos.0 as int, pos.1 as int),
        ensures
            *piece == old(self).pieces[pos.0 as int][pos.1 as int],
            final(self).pieces_num == old(self).pieces_num,
            final(self).scores == old(self).scores,
            final(self).pieces[pos.0 as int][pos.1 as int] == *final(piece),
            forall|r: int, c: int|
                on_board(r, c) && !(r == pos.0 && c == pos.1)
                    ==> #[trigger] final(self).pieces[r][c] == old(self).pieces[r][c],
    {
        &mut self.pieces[pos.0 as usize][pos.1 as usize]
    }

    /// The cells around `pos` that hold `piece`, in the order of the eight
    /// directions. Only the cells next to `pos` are looked at, whatever
    /// `level` is.
    pub fn get_pos_neighbor(&self, pos: &GoPos, piece: &GoPiece, level: u8) -> (v: Vec<GoPos>)
        ensures
            v@ == around(self@, pos.0 as int, pos.1 as int, *piece, 8),
    {
        let ghost g = self@;
        let mut v: Vec<GoPos> = Vec::new();
        let mut i: usize = 0;
        while i < 8
            invariant
                i <= 8,
                g == self@,
                v@ == around(g, pos.0 as int, pos.1 as int, *piece, i as nat),
            decreases 8 - i,
        {
            let dir = Dir::nth(i);
            let mut p = *pos;
            if p.dir_add(&dir) {
                if self.get_piece(&p) == *piece {
                    v.push(p);
                }
            }
            i += 1;
        }
        v
    }

    /// Whether a stone of the player of `step` lies on one of the eight cells
    /// around the cell of `step`.
    pub fn has_neighbor(&self, step: &GoStep) -> (found: bool)
        requires
            on_board(step.pos.0 as int, step.pos.1 as int),
        ensures
            found == touches(self@, step.pos.0 as int, step.pos.1 as int, step.who),
    {
        let ghost g = self@;
        let ghost r = step.pos.0 as int;
        let ghost c = step.pos.1 as int;
        let mut i: usize = 0;
        while i < 8
            invariant
                i <= 8,
                g == self@,
                r == step.pos.0,
                c == step.pos.1,
                on_board(r, c),
                forall|o: int, s: int|
                    0 <= o < 4 && (s == 1 || s == -1) && 2 * o + (if s == 1 {
                        0int
                    } else {
                        1int
                    }) < i ==> !#[trigger] held(g, row_at(o, r, s), col_at(o, c, s), step.who),
            decreases 8 - i,
        {
            let dir = Dir::nth(i);
            let mut p = step.pos;
            if p.dir_add(&dir) {
                if self.get_piece(&p) == GoPiece::P(step.who) {
                    assert(held(g, row_at(dir.axis(), r, dir.sign()), col_at(
                        dir.axis(),
                        c,
                        dir.sign(),
                    ), step.who));
                    return true;
                }
            }
            i += 1;
        }
        false
    }

    /// What the stone of `step` promises where it is not yet placed: the
    /// weight of a win if it completes five in a row, and else the points of
    /// the runs that it would form along the four axes. The board is left as
    /// it is.
    pub fn part_score(&self, step: &GoStep) -> (points: i32)
        requires
            grid_wf(self@),
            step.fits(self@),
        ensures
            points == part_score_of(self@, step.pos.0 as int, step.pos.1 as int, step.who),
            0 <= points <= FIVE,
            points == FIVE <==> wins_at(self@, step.pos.0 as int, step.pos.1 as int, step.who),
    {
        let ghost g = self@;
        let ghost r = step.pos.0 as int;
        let ghost c = step.pos.1 as int;
        let who = step.who;
        let mut score_sum: i32 = 0;
        let mut i: usize = 0;
        while i < 4
            invariant
                i <= 4,
                g == self@,
                grid_wf(g),
                r == step.pos.0,
                c == step.pos.1,
                who == step.who,
                step.fits(g),
                !wins_within(g, r, c, who, i as int),
                score_sum == gain_within(g, r, c, who, i as int),
                0 <= score_sum <= 1024 * i,
            decreases 4 - i,
        {
            let fcond = get_cond_by_dir(&self.pieces, &step.pos, &Dir::nth(i * 2));
            let bcond = get_cond_by_dir(&self.pieces, &step.pos, &Dir::nth(i * 2 + 1));
            proof {
                lemma_cond_facts(g, i as int, r, c, 1, who);
                lemma_cond_facts(g, i as int, r, c, -1, who);
            }
            let mut len: u8 = 1;
            let mut ends: u8 = 0;
            if fcond.num > 0 && fcond.player == who {
                len += fcond.num;
                if !fcond.block {
                    ends += 1;
                }
            } else if fcond.num == 0 && !fcond.block {
                ends += 1;
            }
            if bcond.num > 0 && bcond.player == who {
                len += bcond.num;
                if !bcond.block {
                    ends += 1;
                }
            } else if bcond.num == 0 && !bcond.block {
                ends += 1;
            }
            if len >= 5 {
                proof {
                    reveal(wins_at);
                    reveal(part_score_of);
                }
                return FIVE;
            }
            if ends > 0 {
                score_sum += GoScores::get(len, ends == 1);
            }
            i += 1;
        }
        proof {
            reveal(wins_at);
            reveal(part_score_of);
        }
        score_sum
    }

    /// Brings the counters up to date for a stone that is about to be placed.
    ///
    /// Along each of the four axes the runs on the two sides of the cell
    /// leave their buckets, the run that the stone forms with those of them
    /// that are its player's own enters its bucket, and a run of the opponent
    /// that the stone closes at one end enters the bucket of its new shape.
    /// Afterwards the counters say what a scan of the grid with the stone on
    /// it counts. The grid itself is not touched.
    pub fn update_scores(&mut self, step: &GoStep)
        requires
            old(self).well_formed(),
            step.fits(old(self)@),
        ensures
            final(self).pieces == old(self).pieces,
            final(self).pieces_num == old(self).pieces_num,
            final(self).scores[0].tallies(
                put_grid(old(self)@, step.pos.0 as int, step.pos.1 as int, step.who),
                Player(0),
            ),
            final(self).scores[1].tallies(
                put_grid(old(self)@, step.pos.0 as int, step.pos.1 as int, step.who),
                Player(1),
            ),
    {
        let ghost g = self@;
        let ghost r = step.pos.0 as int;
        let ghost c = step.pos.1 as int;
        let ghost g2 = put_grid(g, r, c, step.who);
        let who = step.who;
        let me_idx = who.0 as usize;
        let ot_idx = who.rev().0 as usize;
        let mut mine = self.scores[me_idx];
        let mut theirs = self.scores[ot_idx];
        let mut i: usize = 0;
        while i < 4
            invariant
                i <= 4,
                grid_wf(g),
                on_board(r, c),
                free(g, r, c),
                r == step.pos.0,
                c == step.pos.1,
                who == step.who,
                who.valid(),
                g2 == put_grid(g, r, c, who),
                g == grid_of(self.pieces),
                forall|kind: int|
                    0 <= kind < 7 ==> #[trigger] mine.bucket(kind) == mixed_count(
                        g,
                        g2,
                        i as int,
                        who,
                        kind,
                    ),
                forall|kind: int|
                    0 <= kind < 7 ==> #[trigger] theirs.bucket(kind) == mixed_count(
                        g,
                        g2,
                        i as int,
                        who.other(),
                        kind,
                    ),
                mine.five <= 1,
                mine.five == 1 <==> has_five(g, who) || wins_within(g, r, c, who, i as int),
                theirs.five <= 1,
                theirs.five == 1 <==> has_five(g, who.other()),
            decreases 4 - i,
        {
            let fcond = get_cond_by_dir(&self.pieces, &step.pos, &Dir::nth(i * 2));
            let bcond = get_cond_by_dir(&self.pieces, &step.pos, &Dir::nth(i * 2 + 1));
            proof {
                lemma_axis_settled(g, i as int, r, c, who, mine, theirs);
            }
            settle_axis(&mut mine, &mut theirs, who, &fcond, &bcond);
            i += 1;
        }
        self.scores[me_idx] = mine;
        self.scores[ot_idx] = theirs;
        proof {
            lemma_five_put(g, r, c, who, who);
            lemma_five_put(g, r, c, who, who.other());
        }
    }
}

/// Before the counters are settled for axis `o`, they hold the runs that
/// are about to leave them and are far from their limit; and the change that
/// settling makes brings them up to date for that axis.
pub proof fn lemma_axis_settled(
    g: Grid,
    o: int,
    r: int,
    c: int,
    who: Player,
    mine: GoScores,
    theirs: GoScores,
)
    requires
        grid_wf(g),
        0 <= o < 4,
        on_board(r, c),
        free(g, r, c),
        who.valid(),
        forall|kind: int|
            0 <= kind < 7 ==> #[trigger] mine.bucket(kind) == mixed_count(
                g,
                put_grid(g, r, c, who),
                o,
                who,
                kind,
            ),
        forall|kind: int|
            0 <= kind < 7 ==> #[trigger] theirs.bucket(kind) == mixed_count(
                g,
                put_grid(g, r, c, who),
                o,
                who.other(),
                kind,
            ),
    ensures
        ({
            let f = cond_spec(g, o, r, c, 1);
            let b = cond_spec(g, o, r, c, -1);
            let g2 = put_grid(g, r, c, who);
            &&& f.num <= 5
            &&& b.num <= 5
            &&& f.num > 0 ==> f.player.valid()
            &&& b.num > 0 ==> b.player.valid()
            &&& merged_len(f, b, who) >= 5 <==> completes_five(g, o, r, c, who)
            &&& forall|kind: int|
                0 <= kind < 7 ==> removed(f, who, kind) + removed(b, who, kind)
                    <= #[trigger] mine.bucket(kind) <= 900
            &&& forall|kind: int|
                0 <= kind < 7 ==> removed(f, who.other(), kind) + removed(b, who.other(), kind)
                    <= #[trigger] theirs.bucket(kind) <= 900
            &&& forall|kind: int|
                0 <= kind < 7 ==> #[trigger] mixed_count(g, g2, o + 1, who, kind) == mine.bucket(
                    kind,
                ) + axis_delta(f, b, who, who, kind)
            &&& forall|kind: int|
                0 <= kind < 7 ==> #[trigger] mixed_count(g, g2, o + 1, who.other(), kind)
                    == theirs.bucket(kind) + axis_delta(f, b, who, who.other(), kind)
        }),
{
    let f = cond_spec(g, o, r, c, 1);
    let b = cond_spec(g, o, r, c, -1);
    let g2 = put_grid(g, r, c, who);
    lemma_cond_facts(g, o, r, c, 1, who);
    lemma_cond_facts(g, o, r, c, -1, who);
    assert forall|kind: int| 0 <= kind < 7 implies removed(f, who, kind) + removed(b, who, kind)
        <= #[trigger] mine.bucket(kind) <= 900 && mixed_count(g, g2, o + 1, who, kind)
        == mine.bucket(kind) + axis_delta(f, b, who, who, kind) by {
        lemma_mixed_step(g, o, r, c, who, who, kind);
    }
    assert forall|kind: int| 0 <= kind < 7 implies removed(f, who.other(), kind) + removed(
        b,
        who.other(),
        kind,
    ) <= #[trigger] theirs.bucket(kind) <= 900 && mixed_count(g, g2, o + 1, who.other(), kind)
        == theirs.bucket(kind) + axis_delta(f, b, who, who.other(), kind) by {
        lemma_mixed_step(g, o, r, c, who, who.other(), kind);
    }
}

} // verus!
