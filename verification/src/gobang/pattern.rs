//! The mathematical model of a five-in-a-row position: the grid, the runs of
//! stones on it, and what a full scan of the grid counts.
//!
//! A run is a maximal line of stones of one player along one of the four
//! axes. It is open when both cells beyond its ends are empty, and half-open
//! when exactly one of them is. Open runs of one to four stones and half-open
//! runs of two to four stones are counted, each kind in a bucket of its own;
//! a line of five or more is a win and is counted in no bucket.

use crate::base::Player;
use crate::sums::sum_to;
use super::{GoPiece, GoPos};
use super::util::Cond;
use vstd::prelude::*;

verus! {

/// A position: fifteen rows of fifteen cells.
pub type Grid = Seq<Seq<GoPiece>>;

/// The number of cells on the board.
pub const CELLS: usize = 225;

/// The number of buckets that runs are counted in.
pub const KINDS: usize = 7;

/// Whether row `r`, column `c` is a cell of the board.
pub open spec fn on_board(r: int, c: int) -> bool {
    0 <= r < 15 && 0 <= c < 15
}

/// The grid has the size of the board, and every stone on it belongs to one
/// of the two players.
pub open spec fn grid_wf(g: Grid) -> bool {
    &&& g.len() == 15
    &&& forall|r: int| 0 <= r < 15 ==> (#[trigger] g[r]).len() == 15
    &&& forall|r: int, c: int|
        on_board(r, c) ==> (#[trigger] g[r][c] matches GoPiece::P(p) ==> p.valid())
}

/// The empty grid.
pub open spec fn empty_grid() -> Grid {
    Seq::new(15, |r: int| Seq::new(15, |c: int| GoPiece::Empty))
}

/// The cell is on the board and holds a stone of `p`.
pub open spec fn held(g: Grid, r: int, c: int, p: Player) -> bool {
    on_board(r, c) && g[r][c] == GoPiece::P(p)
}

/// The cell is on the board and empty.
pub open spec fn free(g: Grid, r: int, c: int) -> bool {
    on_board(r, c) && g[r][c] == GoPiece::Empty
}

/// The grid `g` with a stone of `p` on row `r`, column `c`.
pub open spec fn put_grid(g: Grid, r: int, c: int, p: Player) -> Grid {
    g.update(r, g[r].update(c, GoPiece::P(p)))
}

/// The row reached from row `r` after `k` cells along axis `o`. The axes are
/// 0: along a row, 1: down a column, 2: down and to the left, 3: down and to
/// the right; a negative `k` walks the other way.
pub open spec fn row_at(o: int, r: int, k: int) -> int {
    if o == 0 {
        r
    } else {
        r + k
    }
}

/// The column reached from column `c` after `k` cells along axis `o`.
pub open spec fn col_at(o: int, c: int, k: int) -> int {
    if o == 0 {
        c + k
    } else if o == 1 {
        c
    } else if o == 2 {
        c - k
    } else {
        c + k
    }
}

/// `j` cells forward (`s == 1`) or backward (`s == -1`).
pub open spec fn toward(s: int, j: int) -> int {
    if s >= 0 {
        j
    } else {
        -j
    }
}

/// The number of stones of `p` met in a row when walking from the cell
/// (`r`, `c`), which is not counted, along axis `o` in direction `s`, up to
/// `n` of them.
pub open spec fn arm(g: Grid, o: int, r: int, c: int, s: int, p: Player, n: nat) -> int
    decreases n,
{
    if n == 0 || !held(g, row_at(o, r, s), col_at(o, c, s), p) {
        0
    } else {
        1 + arm(g, o, row_at(o, r, s), col_at(o, c, s), s, p, (n - 1) as nat)
    }
}

/// A run of `p` along axis `o` starts on this cell: the cell holds a stone of
/// `p` and the cell before it does not.
pub open spec fn starts_run(g: Grid, o: int, r: int, c: int, p: Player) -> bool {
    held(g, r, c, p) && !held(g, row_at(o, r, -1), col_at(o, c, -1), p)
}

/// The length of the run of `p` that starts on this cell.
pub open spec fn run_len(g: Grid, o: int, r: int, c: int, p: Player) -> int {
    1 + arm(g, o, r, c, 1, p, 14)
}

/// How many of the two cells beyond the ends of the run that starts on this
/// cell are empty.
pub open spec fn open_ends(g: Grid, o: int, r: int, c: int, p: Player) -> int {
    let n = run_len(g, o, r, c, p);
    let before: int = if free(g, row_at(o, r, -1), col_at(o, c, -1)) {
        1
    } else {
        0
    };
    let after: int = if free(g, row_at(o, r, n), col_at(o, c, n)) {
        1
    } else {
        0
    };
    before + after
}

/// The bucket of a run of `len` stones with `ends` empty cells beyond its
/// ends: 0 to 3 for open runs of one to four, 4 to 6 for half-open runs of two
/// to four, and -1 for a run that is not counted.
pub open spec fn slot(len: int, ends: int) -> int {
    if ends == 2 && 1 <= len <= 4 {
        len - 1
    } else if ends == 1 && 2 <= len <= 4 {
        len + 2
    } else {
        -1
    }
}

/// The bucket of the run of `p` along axis `o` that starts on this cell, or
/// -1 if none starts here or the run is not counted.
pub open spec fn pattern_at(g: Grid, o: int, r: int, c: int, p: Player) -> int {
    if starts_run(g, o, r, c, p) {
        slot(run_len(g, o, r, c, p), open_ends(g, o, r, c, p))
    } else {
        -1
    }
}

/// 1 if a run of bucket `kind` of `p` along axis `o` starts on cell number
/// `i`, counting the cells row by row, else 0.
pub open spec fn hit(g: Grid, o: int, p: Player, kind: int, i: int) -> int {
    if pattern_at(g, o, i / 15, i % 15, p) == kind {
        1
    } else {
        0
    }
}

/// The number of runs of bucket `kind` that `p` has along axis `o`.
pub open spec fn axis_count(g: Grid, o: int, p: Player, kind: int) -> int {
    sum_to(|i: int| hit(g, o, p, kind, i), CELLS as nat)
}

/// The number of runs of bucket `kind` that `p` has on the whole grid.
pub open spec fn count(g: Grid, p: Player, kind: int) -> int {
    axis_count(g, 0, p, kind) + axis_count(g, 1, p, kind) + axis_count(g, 2, p, kind) + axis_count(
        g,
        3,
        p,
        kind,
    )
}

/// Five stones of `p` lie in a row along axis `o`, starting on this cell.
pub open spec fn five_at(g: Grid, o: int, r: int, c: int, p: Player) -> bool {
    &&& held(g, r, c, p)
    &&& held(g, row_at(o, r, 1), col_at(o, c, 1), p)
    &&& held(g, row_at(o, r, 2), col_at(o, c, 2), p)
    &&& held(g, row_at(o, r, 3), col_at(o, c, 3), p)
    &&& held(g, row_at(o, r, 4), col_at(o, c, 4), p)
}

/// `p` has five or more stones in a row somewhere.
pub open spec fn has_five(g: Grid, p: Player) -> bool {
    exists|o: int, r: int, c: int| 0 <= o < 4 && #[trigger] five_at(g, o, r, c, p)
}

/// 1 if cell number `i` of the grid, counting row by row, holds a stone, else
/// 0.
pub open spec fn occupied(g: Grid, i: int) -> int {
    if g[i / 15][i % 15] != GoPiece::Empty {
        1
    } else {
        0
    }
}

/// The number of stones on the grid.
pub open spec fn stones(g: Grid) -> int {
    sum_to(|i: int| occupied(g, i), CELLS as nat)
}

/// No cell of the grid is empty.
pub open spec fn full(g: Grid) -> bool {
    forall|r: int, c: int| on_board(r, c) ==> #[trigger] g[r][c] != GoPiece::Empty
}

/// The points that one run of bucket `kind` is worth.
pub open spec fn weight(kind: int) -> int {
    if kind == 0 {
        0
    } else if kind == 1 {
        32
    } else if kind == 2 {
        256
    } else if kind == 3 {
        1024
    } else if kind == 4 {
        2
    } else if kind == 5 {
        32
    } else if kind == 6 {
        256
    } else {
        0
    }
}

/// The points that five in a row are worth.
pub open spec fn five_weight() -> int {
    5000
}

/// The points of `p`: the weight of each of its runs, and the weight of a
/// win if it has five in a row.
pub open spec fn points(g: Grid, p: Player) -> int {
    (if has_five(g, p) {
        five_weight()
    } else {
        0
    }) + count(g, p, 0) * weight(0) + count(g, p, 1) * weight(1) + count(g, p, 2) * weight(2)
        + count(g, p, 3) * weight(3) + count(g, p, 4) * weight(4) + count(g, p, 5) * weight(5)
        + count(g, p, 6) * weight(6)
}

/// The score of the position for `p`: its points less the opponent's.
pub open spec fn score_of(g: Grid, p: Player) -> int {
    points(g, p) - points(g, p.other())
}

/// What lies next to the cell (`r`, `c`) along axis `o` in direction `s`.
///
/// With no stone on the neighbouring cell, `num` is 0 and `block` says that
/// the neighbour is off the board. With a stone there, `player` owns it,
/// `num` counts the stones of that player in a row from there, up to five,
/// and `block` says that fewer than five were counted and the cell after the
/// last of them is not empty.
pub open spec fn cond_spec(g: Grid, o: int, r: int, c: int, s: int) -> Cond {
    let r1 = row_at(o, r, s);
    let c1 = col_at(o, c, s);
    if !on_board(r1, c1) {
        Cond { player: Player(0), num: 0, block: true }
    } else {
        match g[r1][c1] {
            GoPiece::Empty => Cond { player: Player(0), num: 0, block: false },
            GoPiece::P(q) => {
                let n = arm(g, o, r, c, s, q, 5);
                Cond {
                    player: q,
                    num: n as u8,
                    block: n < 5 && !free(
                        g,
                        row_at(o, r, toward(s, n + 1)),
                        col_at(o, c, toward(s, n + 1)),
                    ),
                }
            },
        }
    }
}

/// The number of stones of `who` that the side described by `c` adds to a
/// run through the cell between the sides.
pub open spec fn own(c: Cond, who: Player) -> int {
    if c.num > 0 && c.player == who {
        c.num as int
    } else {
        0
    }
}

/// Whether a run of `who` through the cell between the sides ends, on the
/// side described by `c`, before an empty cell.
pub open spec fn end_open(c: Cond, who: Player) -> bool {
    if c.num > 0 && c.player == who {
        !c.block
    } else {
        c.num == 0 && !c.block
    }
}

/// The length of the run that a stone of `who` forms with the sides `f` and
/// `b`, each side counted up to five.
pub open spec fn merged_len(f: Cond, b: Cond, who: Player) -> int {
    1 + own(f, who) + own(b, who)
}

/// The number of empty cells beyond the ends of that run.
pub open spec fn merged_ends(f: Cond, b: Cond, who: Player) -> int {
    (if end_open(f, who) {
        1int
    } else {
        0int
    }) + (if end_open(b, who) {
        1int
    } else {
        0int
    })
}

/// The number of empty cells beyond the ends of the run on one side while
/// the cell between the sides is still empty.
pub open spec fn side_ends(c: Cond) -> int {
    if c.block {
        1
    } else {
        2
    }
}

/// 1 if the run on the side `c` is a run of `p` of bucket `kind` before the
/// stone is placed, else 0.
pub open spec fn removed(c: Cond, p: Player, kind: int) -> int {
    if c.num > 0 && c.player == p && slot(c.num as int, side_ends(c)) == kind {
        1
    } else {
        0
    }
}

/// 1 if the run on the side `c` is a run of `p`, the opponent of `who`, and
/// is of bucket `kind` once the stone of `who` closes its near end, else 0.
pub open spec fn demoted(c: Cond, who: Player, p: Player, kind: int) -> int {
    if c.num > 0 && c.player == p && p != who && slot(c.num as int, side_ends(c) - 1) == kind {
        1
    } else {
        0
    }
}

/// 1 if `p` places the stone and the run it forms is of bucket `kind`, else
/// 0.
pub open spec fn created(f: Cond, b: Cond, who: Player, p: Player, kind: int) -> int {
    if p == who && slot(merged_len(f, b, who), merged_ends(f, b, who)) == kind {
        1
    } else {
        0
    }
}

/// The change that a stone of `who` between the sides `f` and `b` makes to
/// the number of runs of `p` of bucket `kind` along the axis of the sides.
pub open spec fn axis_delta(f: Cond, b: Cond, who: Player, p: Player, kind: int) -> int {
    created(f, b, who, p, kind) + demoted(f, who, p, kind) + demoted(b, who, p, kind) - removed(
        f,
        p,
        kind,
    ) - removed(b, p, kind)
}

/// A stone of `who` on the empty cell (`r`, `c`) completes five in a row
/// along axis `o`.
pub open spec fn completes_five(g: Grid, o: int, r: int, c: int, who: Player) -> bool {
    arm(g, o, r, c, 1, who, 5) + arm(g, o, r, c, -1, who, 5) >= 4
}

/// A stone of `p` lies on one of the eight cells around (`r`, `c`).
pub open spec fn touches(g: Grid, r: int, c: int, p: Player) -> bool {
    exists|o: int, s: int|
        0 <= o < 4 && (s == 1 || s == -1) && #[trigger] held(
            g,
            row_at(o, r, s),
            col_at(o, c, s),
            p,
        )
}

/// The points of the run that a stone of `who` on the empty cell (`r`, `c`)
/// would form along axis `o`: the weight of its bucket, and nothing if it
/// would not be counted.
pub open spec fn axis_gain(g: Grid, o: int, r: int, c: int, who: Player) -> int {
    weight(
        slot(
            merged_len(cond_spec(g, o, r, c, 1), cond_spec(g, o, r, c, -1), who),
            merged_ends(cond_spec(g, o, r, c, 1), cond_spec(g, o, r, c, -1), who),
        ),
    )
}

/// The points of the runs that a stone of `who` on the empty cell (`r`, `c`)
/// would form along the first `n` axes.
pub open spec fn gain_within(g: Grid, r: int, c: int, who: Player, n: int) -> int {
    (if n > 0 {
        axis_gain(g, 0, r, c, who)
    } else {
        0
    }) + (if n > 1 {
        axis_gain(g, 1, r, c, who)
    } else {
        0
    }) + (if n > 2 {
        axis_gain(g, 2, r, c, who)
    } else {
        0
    }) + (if n > 3 {
        axis_gain(g, 3, r, c, who)
    } else {
        0
    })
}

/// A stone of `who` on the empty cell (`r`, `c`) completes five in a row
/// along one of the first `n` axes.
pub open spec fn wins_within(g: Grid, r: int, c: int, who: Player, n: int) -> bool {
    ||| n > 0 && completes_five(g, 0, r, c, who)
    ||| n > 1 && completes_five(g, 1, r, c, who)
    ||| n > 2 && completes_five(g, 2, r, c, who)
    ||| n > 3 && completes_five(g, 3, r, c, who)
}

/// A stone of `who` on the empty cell (`r`, `c`) completes five in a row.
#[verifier::opaque]
pub open spec fn wins_at(g: Grid, r: int, c: int, who: Player) -> bool {
    wins_within(g, r, c, who, 4)
}

/// What a stone of `who` on the empty cell (`r`, `c`) promises: the weight
/// of a win if it completes five in a row, which nothing else reaches, and
/// else the points of the runs it would form along the four axes.
#[verifier::opaque]
pub open spec fn part_score_of(g: Grid, r: int, c: int, who: Player) -> int {
    if wins_at(g, r, c, who) {
        five_weight()
    } else {
        gain_within(g, r, c, who, 4)
    }
}

/// The cells around (`r`, `c`) that hold `piece`, among those in the first
/// `n` of the eight directions: each axis forward, then backward.
pub open spec fn around(g: Grid, r: int, c: int, piece: GoPiece, n: nat) -> Seq<GoPos>
    decreases n,
{
    if n == 0 {
        Seq::empty()
    } else {
        let rest = around(g, r, c, piece, (n - 1) as nat);
        let o = (n - 1) / 2;
        let s = if (n - 1) % 2 == 0 {
            1int
        } else {
            -1int
        };
        let r1 = row_at(o, r, s);
        let c1 = col_at(o, c, s);
        if on_board(r1, c1) && g[r1][c1] == piece {
            rest.push(GoPos(r1 as u8, c1 as u8))
        } else {
            rest
        }
    }
}

} // verus!
