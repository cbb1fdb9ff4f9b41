//! Counting the runs of a player from scratch, by a scan of the whole grid.
//!
//! The board never needs this, for it keeps its counters up to date with
//! every stone. The scan is there to check a board against, and to set up
//! the counters of a board that was not built stone by stone.

use crate::base::Player;
use crate::sums::sum_to;
use super::{GoBoard, GoPiece, GoPos, GoScores};
use super::lemmas::{lemma_arm_cells, lemma_arm_limit, lemma_arm_on_board, lemma_arm_stop};
use super::pattern::{
    arm, axis_count, col_at, cond_spec, count, end_open, five_at, grid_wf, has_five, held, hit,
    on_board, open_ends, own, row_at, run_len, slot, starts_run, toward, Grid, CELLS,
};
use super::placing::{lemma_cond_facts, lemma_run_at_least, lemma_run_exact, lemma_run_shape};
use super::util::{get_cond_by_dir, Dir};
use vstd::prelude::*;

verus! {

/// A run of `p` of five stones or more along axis `o` starts on cell number
/// `i`, counting row by row.
pub open spec fn long_run(g: Grid, o: int, p: Player, i: int) -> bool {
    starts_run(g, o, i / 15, i % 15, p) && run_len(g, o, i / 15, i % 15, p) >= 5
}

/// A run of `p` of five stones or more starts on one of the first `n` cells
/// along axis `o`, or anywhere along an axis before `o`.
pub open spec fn long_run_before(g: Grid, o: int, p: Player, n: int) -> bool {
    exists|o2: int, i: int|
        0 <= o2 <= o && 0 <= i < CELLS && (o2 < o || i < n) && #[trigger] long_run(g, o2, p, i)
}

/// Five in a row belong to a run of five stones or more, which starts on
/// some cell.
pub proof fn lemma_five_has_start(g: Grid, p: Player)
    requires
        has_five(g, p),
    ensures
        exists|o: int, i: int| 0 <= o < 4 && 0 <= i < CELLS && #[trigger] long_run(g, o, p, i),
{
    let (o, r, c) = choose|o: int, r: int, c: int| 0 <= o < 4 && #[trigger] five_at(g, o, r, c, p);
    // Walk back from the five stones to the cell on which their run starts.
    let back = arm(g, o, r, c, -1, p, 14);
    lemma_arm_limit(g, o, r, c, -1, p, 14);
    lemma_arm_on_board(g, o, r, c, -1, p, 14);
    let r0 = row_at(o, r, -back);
    let c0 = col_at(o, c, -back);
    if back > 0 {
        lemma_arm_cells(g, o, r, c, -1, p, 14, back);
        assert(toward(-1, back) == -back);
    }
    assert(held(g, r0, c0, p));
    if back < 14 {
        lemma_arm_stop(g, o, r, c, -1, p, 14);
        assert(toward(-1, back + 1) == -(back + 1));
        assert(row_at(o, r0, -1) == row_at(o, r, -(back + 1)));
        assert(col_at(o, c0, -1) == col_at(o, c, -(back + 1)));
    } else {
        assert(!on_board(row_at(o, r0, -1), col_at(o, c0, -1)));
    }
    assert(starts_run(g, o, r0, c0, p));
    assert forall|j: int| 1 <= j < back + 5 implies held(
        g,
        #[trigger] row_at(o, r0, j),
        col_at(o, c0, j),
        p,
    ) by {
        if j < back {
            let k = back - j;
            lemma_arm_cells(g, o, r, c, -1, p, 14, k);
            assert(toward(-1, k) == -k);
            assert(row_at(o, r0, j) == row_at(o, r, toward(-1, k)));
            assert(col_at(o, c0, j) == col_at(o, c, toward(-1, k)));
        } else {
            let k = j - back;
            assert(row_at(o, r0, j) == row_at(o, r, k));
            assert(col_at(o, c0, j) == col_at(o, c, k));
            assert(row_at(o, r, 0) == r && col_at(o, c, 0) == c);
        }
    }
    lemma_run_at_least(g, o, r0, c0, p, back + 5);
    let i = r0 * 15 + c0;
    assert(i / 15 == r0 && i % 15 == c0);
    assert(long_run(g, o, p, i));
}

/// A run of five stones or more holds five in a row.
pub proof fn lemma_long_run_is_five(g: Grid, o: int, p: Player, i: int)
    requires
        0 <= o < 4,
        0 <= i < CELLS,
        long_run(g, o, p, i),
    ensures
        has_five(g, p),
{
    let r = i / 15;
    let c = i % 15;
    lemma_run_shape(g, o, r, c, p);
    assert(five_at(g, o, r, c, p));
}

/// What a cell that holds a stone of `p` counts for, from what lies on its
/// two sides along the axis: for nothing unless no stone of `p` lies before
/// it, and then for the run that it forms with the stones of `p` after it.
pub proof fn lemma_pattern_from_sides(g: Grid, o: int, r: int, c: int, p: Player)
    requires
        grid_wf(g),
        0 <= o < 4,
        on_board(r, c),
        held(g, r, c, p),
    ensures
        starts_run(g, o, r, c, p) <==> own(cond_spec(g, o, r, c, -1), p) == 0,
        starts_run(g, o, r, c, p) ==> (run_len(g, o, r, c, p) >= 5 <==> own(
            cond_spec(g, o, r, c, 1),
            p,
        ) >= 4),
        starts_run(g, o, r, c, p) && own(cond_spec(g, o, r, c, 1), p) < 4 ==> run_len(
            g,
            o,
            r,
            c,
            p,
        ) == 1 + own(cond_spec(g, o, r, c, 1), p) && open_ends(g, o, r, c, p) == (if end_open(
            cond_spec(g, o, r, c, 1),
            p,
        ) {
            1int
        } else {
            0int
        }) + (if end_open(cond_spec(g, o, r, c, -1), p) {
            1int
        } else {
            0int
        }),
{
    let f = cond_spec(g, o, r, c, 1);
    let b = cond_spec(g, o, r, c, -1);
    lemma_cond_facts(g, o, r, c, 1, p);
    lemma_cond_facts(g, o, r, c, -1, p);
    if own(b, p) == 0 {
        let n = own(f, p);
        assert forall|j: int| 1 <= j < n + 1 implies held(
            g,
            #[trigger] row_at(o, r, j),
            col_at(o, c, j),
            p,
        ) by {
            assert(toward(1, j) == j);
        }
        if n < 5 {
            lemma_run_exact(g, o, r, c, p, n + 1);
        } else {
            lemma_run_at_least(g, o, r, c, p, n + 1);
        }
    }
}

impl GoBoard {
    /// The counters of `player` as a scan of the whole grid gives them: each
    /// cell is looked at along each of the four axes, and where a run of
    /// `player` starts, the run is counted in its bucket, or noted as the win
    /// if it has five stones or more.
    pub fn rescan(&self, player: Player) -> (s: GoScores)
        requires
            grid_wf(self@),
        ensures
            s.tallies(self@, player),
    {
        let ghost g = self@;
        let mut s = GoScores::new();
        let mut o: usize = 0;
        while o < 4
            invariant
                o <= 4,
                g == self@,
                grid_wf(g),
                s.five <= 1,
                s.five == 1 <==> long_run_before(g, o as int, player, 0),
                forall|kind: int|
                    0 <= kind < 7 ==> #[trigger] s.bucket(kind) == partial_count(
                        g,
                        o as int,
                        0,
                        player,
                        kind,
                    ),
            decreases 4 - o,
        {
            let mut idx: u8 = 0;
            while idx < 225
                invariant
                    o < 4,
                    idx <= 225,
                    g == self@,
                    grid_wf(g),
                    s.five <= 1,
                    s.five == 1 <==> long_run_before(g, o as int, player, idx as int),
                    forall|kind: int|
                        0 <= kind < 7 ==> #[trigger] s.bucket(kind) == partial_count(
                            g,
                            o as int,
                            idx as nat,
                            player,
                            kind,
                        ),
                decreases 225 - idx,
            {
                let pos = GoPos(idx / 15, idx % 15);
                let ghost before = s;
                let mut len: u8 = 0;
                let mut ends: u8 = 0;
                if self.get_piece(&pos) == GoPiece::P(player) {
                    let b = get_cond_by_dir(&self.pieces, &pos, &Dir::nth(2 * o + 1));
                    if !(b.num > 0 && b.player == player) {
                        let f = get_cond_by_dir(&self.pieces, &pos, &Dir::nth(2 * o));
                        proof {
                            lemma_cond_facts(g, o as int, pos.0 as int, pos.1 as int, 1, player);
                        }
                        len = 1;
                        if f.num > 0 && f.player == player {
                            len += f.num;
                            if !f.block {
                                ends += 1;
                            }
                        } else if f.num == 0 && !f.block {
                            ends += 1;
                        }
                        if b.num == 0 && !b.block {
                            ends += 1;
                        }
                    }
                }
                proof {
                    lemma_scanned_cell(g, o as int, idx as int, player);
                    lemma_partial_bounds(g, o as int, idx as nat, player);
                }
                if len >= 5 {
                    s.insert(len, false);
                } else if ends == 2 {
                    s.insert(len, false);
                } else if ends == 1 {
                    s.insert(len, true);
                }
                proof {
                    assert forall|kind: int| 0 <= kind < 7 implies #[trigger] s.bucket(kind)
                        == partial_count(g, o as int, (idx + 1) as nat, player, kind) by {}
                }
                idx += 1;
            }
            o += 1;
        }
        proof {
            if has_five(g, player) {
                lemma_five_has_start(g, player);
            }
            if long_run_before(g, 4, player, 0) {
                let (o2, i) = choose|o2: int, i: int|
                    0 <= o2 <= 4 && 0 <= i < CELLS && (o2 < 4 || i < 0) && #[trigger] long_run(
                        g,
                        o2,
                        player,
                        i,
                    );
                lemma_long_run_is_five(g, o2, player, i);
            }
        }
        s
    }
}

/// The number of runs of `p` of bucket `kind` that start along an axis
/// before `o`, or on one of the first `n` cells along axis `o`.
pub open spec fn partial_count(g: Grid, o: int, n: nat, p: Player, kind: int) -> int {
    (if o > 0 {
        axis_count(g, 0, p, kind)
    } else {
        0
    }) + (if o > 1 {
        axis_count(g, 1, p, kind)
    } else {
        0
    }) + (if o > 2 {
        axis_count(g, 2, p, kind)
    } else {
        0
    }) + (if o > 3 {
        axis_count(g, 3, p, kind)
    } else {
        0
    }) + sum_to(|i: int| hit(g, o, p, kind, i), n)
}

/// A count in the making stays far below the limit of a counter.
pub proof fn lemma_partial_bounds(g: Grid, o: int, n: nat, p: Player)
    requires
        0 <= o < 4,
        n <= CELLS,
    ensures
        forall|kind: int| 0 <= kind < 7 ==> 0 <= #[trigger] partial_count(g, o, n, p, kind) <= 900,
{
    assert forall|kind: int| 0 <= kind < 7 implies 0 <= #[trigger] partial_count(
        g,
        o,
        n,
        p,
        kind,
    ) <= 900 by {
        super::placing::lemma_axis_count_bounds(g, 0, p, kind);
        super::placing::lemma_axis_count_bounds(g, 1, p, kind);
        super::placing::lemma_axis_count_bounds(g, 2, p, kind);
        crate::sums::lemma_sum_bounds(|i: int| hit(g, o, p, kind, i), n, 0, 1);
    }
}

/// What cell number `i` adds to the counts along axis `o`, from what lies on
/// its two sides: the run that starts on it, if one does.
pub proof fn lemma_scanned_cell(g: Grid, o: int, i: int, p: Player)
    requires
        grid_wf(g),
        0 <= o < 4,
        0 <= i < CELLS,
    ensures
        ({
            let r = i / 15;
            let c = i % 15;
            let f = cond_spec(g, o, r, c, 1);
            let b = cond_spec(g, o, r, c, -1);
            let starts = held(g, r, c, p) && own(b, p) == 0;
            let len = 1 + own(f, p);
            let ends = (if end_open(f, p) {
                1int
            } else {
                0int
            }) + (if b.num == 0 && !b.block {
                1int
            } else {
                0int
            });
            &&& long_run(g, o, p, i) <==> starts && len >= 5
            &&& forall|kind: int|
                0 <= kind < 7 ==> #[trigger] partial_count(g, o, (i + 1) as nat, p, kind)
                    == partial_count(g, o, i as nat, p, kind) + if starts && slot(len, ends)
                    == kind {
                    1int
                } else {
                    0int
                }
        }),
{
    let r = i / 15;
    let c = i % 15;
    if held(g, r, c, p) {
        lemma_pattern_from_sides(g, o, r, c, p);
    }
}

} // verus!
