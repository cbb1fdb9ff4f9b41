//! What placing one stone does to the runs on the board.
//!
//! A stone on an empty cell touches, along each axis, only the run that ends
//! just before the cell, the run that starts just after it, and the run that
//! the stone itself joins or founds. Every other run is counted as before.

use crate::base::Player;
use crate::sums::{
    lemma_sum_all_ones, lemma_sum_at_least, lemma_sum_at_least_two, lemma_sum_bounds,
    lemma_sum_delta, lemma_sum_nonnegative,
};
use super::GoPiece;
use super::lemmas::{
    lemma_arm_at_least, lemma_arm_cells, lemma_arm_exact, lemma_arm_limit, lemma_arm_stop,
};
use super::pattern::{
    arm, axis_count, axis_delta, col_at, completes_five, cond_spec, count, created, demoted,
    empty_grid, end_open, five_at, free, full, grid_wf, has_five, held, hit, merged_ends,
    merged_len, occupied, on_board, own, pattern_at, put_grid, removed, row_at, run_len,
    side_ends, slot, stones, toward, wins_within, Grid, CELLS,
};
use vstd::prelude::*;

verus! {

/// Placing a stone changes the cell it is placed on and no other.
pub proof fn lemma_put_cells(g: Grid, r: int, c: int, who: Player)
    requires
        grid_wf(g),
        on_board(r, c),
    ensures
        put_grid(g, r, c, who).len() == 15,
        forall|a: int| 0 <= a < 15 ==> (#[trigger] put_grid(g, r, c, who)[a]).len() == 15,
        forall|a: int, b: int|
            on_board(a, b) ==> #[trigger] put_grid(g, r, c, who)[a][b] == if a == r && b == c {
                GoPiece::P(who)
            } else {
                g[a][b]
            },
        forall|a: int, b: int, p: Player| #[trigger]
            held(put_grid(g, r, c, who), a, b, p) == if a == r && b == c {
                p == who
            } else {
                held(g, a, b, p)
            },
        forall|a: int, b: int| #[trigger]
            free(put_grid(g, r, c, who), a, b) == (free(g, a, b) && !(a == r && b == c)),
{
    let g2 = put_grid(g, r, c, who);
    assert forall|a: int, b: int| on_board(a, b) implies #[trigger] g2[a][b] == if a == r && b
        == c {
        GoPiece::P(who)
    } else {
        g[a][b]
    } by {}
}

/// The run that starts on a cell reaches as far as its arm says and ends
/// before a cell that does not hold a stone of its player.
pub proof fn lemma_run_shape(g: Grid, o: int, r: int, c: int, p: Player)
    requires
        0 <= o < 4,
        on_board(r, c),
    ensures
        1 <= run_len(g, o, r, c, p) <= 15,
        forall|j: int|
            1 <= j < run_len(g, o, r, c, p) ==> held(
                g,
                #[trigger] row_at(o, r, j),
                col_at(o, c, j),
                p,
            ),
        !held(
            g,
            row_at(o, r, run_len(g, o, r, c, p)),
            col_at(o, c, run_len(g, o, r, c, p)),
            p,
        ),
{
    let a = arm(g, o, r, c, 1, p, 14);
    lemma_arm_limit(g, o, r, c, 1, p, 14);
    assert forall|j: int| 1 <= j < run_len(g, o, r, c, p) implies held(
        g,
        #[trigger] row_at(o, r, j),
        col_at(o, c, j),
        p,
    ) by {
        lemma_arm_cells(g, o, r, c, 1, p, 14, j);
    }
    if a < 14 {
        lemma_arm_stop(g, o, r, c, 1, p, 14);
    }
}

/// The run that starts on a cell has exactly `len` stones if the `len - 1`
/// cells after it hold stones of its player and the next one does not.
pub proof fn lemma_run_exact(g: Grid, o: int, r: int, c: int, p: Player, len: int)
    requires
        0 <= o < 4,
        on_board(r, c),
        1 <= len,
        forall|j: int| 1 <= j < len ==> held(g, #[trigger] row_at(o, r, j), col_at(o, c, j), p),
        !held(g, row_at(o, r, len), col_at(o, c, len), p),
    ensures
        run_len(g, o, r, c, p) == len,
{
    if len > 15 {
        assert(held(g, row_at(o, r, 15), col_at(o, c, 15), p));
    }
    lemma_arm_exact(g, o, r, c, 1, p, 14, (len - 1) as nat);
}

/// The run that starts on a cell has at least `len` stones if the `len - 1`
/// cells after it hold stones of its player.
pub proof fn lemma_run_at_least(g: Grid, o: int, r: int, c: int, p: Player, len: int)
    requires
        0 <= o < 4,
        on_board(r, c),
        1 <= len,
        forall|j: int| 1 <= j < len ==> held(g, #[trigger] row_at(o, r, j), col_at(o, c, j), p),
    ensures
        run_len(g, o, r, c, p) >= len,
{
    if len > 15 {
        assert(held(g, row_at(o, r, 15), col_at(o, c, 15), p));
    }
    lemma_arm_at_least(g, o, r, c, 1, p, 14, (len - 1) as nat);
}

/// A run that the new stone neither joins nor borders is counted as before:
/// its cell is not the cell of the stone, not the cell after it, and not the
/// start of a run of fewer than five that ends just before it.
pub proof fn lemma_pattern_unchanged(
    g: Grid,
    o: int,
    r: int,
    c: int,
    who: Player,
    p: Player,
    r0: int,
    c0: int,
)
    requires
        grid_wf(g),
        0 <= o < 4,
        on_board(r, c),
        free(g, r, c),
        on_board(r0, c0),
        !(r0 == r && c0 == c),
        !(r0 == row_at(o, r, 1) && c0 == col_at(o, c, 1)),
        !(arm(g, o, r, c, -1, p, 5) <= 4 && r0 == row_at(o, r, -arm(g, o, r, c, -1, p, 5)) && c0
            == col_at(o, c, -arm(g, o, r, c, -1, p, 5))),
    ensures
        pattern_at(put_grid(g, r, c, who), o, r0, c0, p) == pattern_at(g, o, r0, c0, p),
{
    let g2 = put_grid(g, r, c, who);
    if held(g, r0, c0, p) && !held(g, row_at(o, r0, -1), col_at(o, c0, -1), p) {
        let len = run_len(g, o, r0, c0, p);
        lemma_run_shape(g, o, r0, c0, p);
        let re = row_at(o, r0, len);
        let ce = col_at(o, c0, len);
        if re == r && ce == c {
            // The run ends just before the new stone.
            assert forall|j: int| 1 <= j <= len implies held(
                g,
                #[trigger] row_at(o, r, toward(-1, j)),
                col_at(o, c, toward(-1, j)),
                p,
            ) by {
                let k = len - j;
                assert(row_at(o, r, toward(-1, j)) == row_at(o, r0, k));
            }
            if len <= 4 {
                lemma_arm_exact(g, o, r, c, -1, p, 5, len as nat);
            } else {
                lemma_run_at_least(g2, o, r0, c0, p, len);
            }
        } else {
            lemma_run_exact(g2, o, r0, c0, p, len);
        }
    }
}

/// What the scan of one side says about the grid.
pub proof fn lemma_cond_facts(g: Grid, o: int, r: int, c: int, s: int, p: Player)
    requires
        grid_wf(g),
        0 <= o < 4,
        on_board(r, c),
        s == 1 || s == -1,
    ensures
        0 <= cond_spec(g, o, r, c, s).num <= 5,
        own(cond_spec(g, o, r, c, s), p) == arm(g, o, r, c, s, p, 5),
        forall|j: int|
            1 <= j <= own(cond_spec(g, o, r, c, s), p) ==> held(
                g,
                #[trigger] row_at(o, r, toward(s, j)),
                col_at(o, c, toward(s, j)),
                p,
            ),
        own(cond_spec(g, o, r, c, s), p) < 5 ==> !held(
            g,
            row_at(o, r, toward(s, own(cond_spec(g, o, r, c, s), p) + 1)),
            col_at(o, c, toward(s, own(cond_spec(g, o, r, c, s), p) + 1)),
            p,
        ),
        own(cond_spec(g, o, r, c, s), p) < 5 ==> (end_open(cond_spec(g, o, r, c, s), p) <==> free(
            g,
            row_at(o, r, toward(s, own(cond_spec(g, o, r, c, s), p) + 1)),
            col_at(o, c, toward(s, own(cond_spec(g, o, r, c, s), p) + 1)),
        )),
        cond_spec(g, o, r, c, s).num > 0 ==> cond_spec(g, o, r, c, s).player.valid() && held(
            g,
            row_at(o, r, s),
            col_at(o, c, s),
            cond_spec(g, o, r, c, s).player,
        ),
        cond_spec(g, o, r, c, s).num == 0 ==> !held(g, row_at(o, r, s), col_at(o, c, s), p),
        cond_spec(g, o, r, c, s).num == 5 ==> !cond_spec(g, o, r, c, s).block,
{
    let r1 = row_at(o, r, s);
    let c1 = col_at(o, c, s);
    if on_board(r1, c1) {
        match g[r1][c1] {
            GoPiece::Empty => {},
            GoPiece::P(q) => {
                lemma_arm_limit(g, o, r1, c1, s, q, 4);
                assert(arm(g, o, r, c, s, q, 5) >= 1);
            },
        }
    }
    let a = arm(g, o, r, c, s, p, 5);
    assert forall|j: int| 1 <= j <= a implies held(
        g,
        #[trigger] row_at(o, r, toward(s, j)),
        col_at(o, c, toward(s, j)),
        p,
    ) by {
        lemma_arm_cells(g, o, r, c, s, p, 5, j);
    }
    if a < 5 {
        lemma_arm_stop(g, o, r, c, s, p, 5);
    }
}

/// How the cell of the new stone is counted: not at all before, and after
/// as the start of the run that the stone forms, unless that run starts
/// further back.
pub proof fn lemma_cell_new(g: Grid, o: int, r: int, c: int, who: Player, p: Player)
    requires
        grid_wf(g),
        0 <= o < 4,
        on_board(r, c),
        free(g, r, c),
    ensures
        pattern_at(g, o, r, c, p) == -1,
        pattern_at(put_grid(g, r, c, who), o, r, c, p) == if p == who && own(
            cond_spec(g, o, r, c, -1),
            who,
        ) == 0 {
            slot(
                merged_len(cond_spec(g, o, r, c, 1), cond_spec(g, o, r, c, -1), who),
                merged_ends(cond_spec(g, o, r, c, 1), cond_spec(g, o, r, c, -1), who),
            )
        } else {
            -1
        },
{
    let g2 = put_grid(g, r, c, who);
    let f = cond_spec(g, o, r, c, 1);
    let b = cond_spec(g, o, r, c, -1);
    lemma_cond_facts(g, o, r, c, 1, who);
    lemma_cond_facts(g, o, r, c, -1, who);
    assert(toward(-1, 1) == -1);
    if p == who && own(b, who) == 0 {
        let n = own(f, who);
        assert forall|j: int| 1 <= j < n + 1 implies held(
            g2,
            #[trigger] row_at(o, r, j),
            col_at(o, c, j),
            who,
        ) by {
            assert(toward(1, j) == j);
        }
        if n < 5 {
            lemma_run_exact(g2, o, r, c, who, n + 1);
        } else {
            lemma_run_at_least(g2, o, r, c, who, n + 1);
        }
    }
}

/// How the cell after the new stone is counted: before as the start of the
/// run on the forward side, and after as the start of that run with its near
/// end closed, unless the stone joins the run.
pub proof fn lemma_cell_forward(g: Grid, o: int, r: int, c: int, who: Player, p: Player)
    requires
        grid_wf(g),
        0 <= o < 4,
        on_board(r, c),
        free(g, r, c),
        on_board(row_at(o, r, 1), col_at(o, c, 1)),
    ensures
        pattern_at(g, o, row_at(o, r, 1), col_at(o, c, 1), p) == if own(
            cond_spec(g, o, r, c, 1),
            p,
        ) > 0 {
            slot(cond_spec(g, o, r, c, 1).num as int, side_ends(cond_spec(g, o, r, c, 1)))
        } else {
            -1
        },
        pattern_at(put_grid(g, r, c, who), o, row_at(o, r, 1), col_at(o, c, 1), p) == if own(
            cond_spec(g, o, r, c, 1),
            p,
        ) > 0 && p != who {
            slot(cond_spec(g, o, r, c, 1).num as int, side_ends(cond_spec(g, o, r, c, 1)) - 1)
        } else {
            -1
        },
{
    let g2 = put_grid(g, r, c, who);
    let f = cond_spec(g, o, r, c, 1);
    let r1 = row_at(o, r, 1);
    let c1 = col_at(o, c, 1);
    lemma_cond_facts(g, o, r, c, 1, p);
    let n = own(f, p);
    if n > 0 {
        assert forall|j: int| 1 <= j < n implies held(
            g,
            #[trigger] row_at(o, r1, j),
            col_at(o, c1, j),
            p,
        ) by {
            assert(row_at(o, r1, j) == row_at(o, r, toward(1, j + 1)));
        }
        assert forall|j: int| 1 <= j < n implies held(
            g2,
            #[trigger] row_at(o, r1, j),
            col_at(o, c1, j),
            p,
        ) by {
            assert(held(g, row_at(o, r1, j), col_at(o, c1, j), p));
        }
        if n < 5 {
            lemma_run_exact(g, o, r1, c1, p, n);
            if p != who {
                lemma_run_exact(g2, o, r1, c1, p, n);
            }
        } else {
            lemma_run_at_least(g, o, r1, c1, p, n);
            if p != who {
                lemma_run_at_least(g2, o, r1, c1, p, n);
            }
        }
    }
}

/// How the start of the run that ends just before the new stone is counted:
/// before as that run with an open near end, and after as the run that the
/// stone forms, or as the old run with its near end closed.
pub proof fn lemma_cell_backward(g: Grid, o: int, r: int, c: int, who: Player, p: Player)
    requires
        grid_wf(g),
        0 <= o < 4,
        on_board(r, c),
        free(g, r, c),
        1 <= own(cond_spec(g, o, r, c, -1), p) <= 4,
    ensures
        on_board(
            row_at(o, r, -own(cond_spec(g, o, r, c, -1), p)),
            col_at(o, c, -own(cond_spec(g, o, r, c, -1), p)),
        ),
        pattern_at(
            g,
            o,
            row_at(o, r, -own(cond_spec(g, o, r, c, -1), p)),
            col_at(o, c, -own(cond_spec(g, o, r, c, -1), p)),
            p,
        ) == slot(cond_spec(g, o, r, c, -1).num as int, side_ends(cond_spec(g, o, r, c, -1))),
        pattern_at(
            put_grid(g, r, c, who),
            o,
            row_at(o, r, -own(cond_spec(g, o, r, c, -1), p)),
            col_at(o, c, -own(cond_spec(g, o, r, c, -1), p)),
            p,
        ) == if p == who {
            slot(
                merged_len(cond_spec(g, o, r, c, 1), cond_spec(g, o, r, c, -1), who),
                merged_ends(cond_spec(g, o, r, c, 1), cond_spec(g, o, r, c, -1), who),
            )
        } else {
            slot(cond_spec(g, o, r, c, -1).num as int, side_ends(cond_spec(g, o, r, c, -1)) - 1)
        },
{
    let g2 = put_grid(g, r, c, who);
    let f = cond_spec(g, o, r, c, 1);
    let b = cond_spec(g, o, r, c, -1);
    let n = own(b, p);
    let r0 = row_at(o, r, -n);
    let c0 = col_at(o, c, -n);
    lemma_put_cells(g, r, c, who);
    lemma_cond_facts(g, o, r, c, -1, p);
    lemma_cond_facts(g, o, r, c, 1, p);
    assert(toward(-1, n) == -n);
    assert forall|j: int| 1 <= j < n implies held(
        g,
        #[trigger] row_at(o, r0, j),
        col_at(o, c0, j),
        p,
    ) by {
        let k = n - j;
        assert(row_at(o, r0, j) == row_at(o, r, toward(-1, k)));
    }
    lemma_run_exact(g, o, r0, c0, p, n);
    if p == who {
        let m = own(f, who);
        assert forall|j: int| 1 <= j < n + 1 + m implies held(
            g2,
            #[trigger] row_at(o, r0, j),
            col_at(o, c0, j),
            p,
        ) by {
            if j < n {
            } else if j > n {
                let k = j - n;
                assert(row_at(o, r0, j) == row_at(o, r, toward(1, k)));
            }
        }
        if m < 5 {
            lemma_run_exact(g2, o, r0, c0, p, n + 1 + m);
        } else {
            lemma_run_at_least(g2, o, r0, c0, p, n + 1 + m);
        }
    } else {
        lemma_run_exact(g2, o, r0, c0, p, n);
    }
}

/// The number of the cell (`r`, `c`), counting row by row, or -1 if it is
/// not on the board.
pub open spec fn cell_index(r: int, c: int) -> int {
    if on_board(r, c) {
        r * 15 + c
    } else {
        -1
    }
}

/// Along one axis a player has at most as many runs of a kind as the board
/// has cells.
pub proof fn lemma_axis_count_bounds(g: Grid, o: int, p: Player, kind: int)
    ensures
        0 <= axis_count(g, o, p, kind) <= 225,
{
    let f = |i: int| hit(g, o, p, kind, i);
    lemma_sum_bounds(f, CELLS as nat, 0, 1);
}

/// The number of the cell where the run of `p` that ends just before the
/// cell (`r`, `c`) starts, if that run has one to four stones, else -1.
pub open spec fn back_index(g: Grid, o: int, r: int, c: int, p: Player) -> int {
    let n = own(cond_spec(g, o, r, c, -1), p);
    if 1 <= n <= 4 {
        cell_index(row_at(o, r, -n), col_at(o, c, -n))
    } else {
        -1
    }
}

/// Away from the new stone, the cell after it and the start of the run
/// before it, every cell is counted as before.
pub proof fn lemma_hits_elsewhere(
    g: Grid,
    o: int,
    r: int,
    c: int,
    who: Player,
    p: Player,
    kind: int,
)
    requires
        grid_wf(g),
        0 <= o < 4,
        on_board(r, c),
        free(g, r, c),
    ensures
        forall|i: int|
            0 <= i < CELLS && i != cell_index(r, c) && i != cell_index(
                row_at(o, r, 1),
                col_at(o, c, 1),
            ) && i != back_index(g, o, r, c, p) ==> #[trigger] hit(
                put_grid(g, r, c, who),
                o,
                p,
                kind,
                i,
            ) == hit(g, o, p, kind, i),
{
    lemma_cond_facts(g, o, r, c, -1, p);
    assert forall|i: int|
        0 <= i < CELLS && i != cell_index(r, c) && i != cell_index(
            row_at(o, r, 1),
            col_at(o, c, 1),
        ) && i != back_index(g, o, r, c, p) implies #[trigger] hit(
        put_grid(g, r, c, who),
        o,
        p,
        kind,
        i,
    ) == hit(g, o, p, kind, i) by {
        lemma_pattern_unchanged(g, o, r, c, who, p, i / 15, i % 15);
    }
}

/// The cell of the new stone counts for nothing before, and after for the
/// run that the stone forms if that run starts there.
pub proof fn lemma_hit_new(g: Grid, o: int, r: int, c: int, who: Player, p: Player, kind: int)
    requires
        grid_wf(g),
        0 <= o < 4,
        on_board(r, c),
        free(g, r, c),
        0 <= kind < 7,
    ensures
        0 <= cell_index(r, c) < CELLS,
        hit(g, o, p, kind, cell_index(r, c)) == 0,
        hit(put_grid(g, r, c, who), o, p, kind, cell_index(r, c)) == if own(
            cond_spec(g, o, r, c, -1),
            p,
        ) == 0 {
            created(cond_spec(g, o, r, c, 1), cond_spec(g, o, r, c, -1), who, p, kind)
        } else {
            0
        },
{
    lemma_cell_new(g, o, r, c, who, p);
}

/// The cell after the new stone counts before for the run on the forward
/// side, and after for that run with its near end closed.
pub proof fn lemma_hit_forward(g: Grid, o: int, r: int, c: int, who: Player, p: Player, kind: int)
    requires
        grid_wf(g),
        0 <= o < 4,
        on_board(r, c),
        free(g, r, c),
        0 <= kind < 7,
    ensures
        ({
            let g2 = put_grid(g, r, c, who);
            let f = cond_spec(g, o, r, c, 1);
            let xf = cell_index(row_at(o, r, 1), col_at(o, c, 1));
            &&& -1 <= xf < CELLS
            &&& xf != cell_index(r, c)
            &&& xf == -1 ==> removed(f, p, kind) == 0 && demoted(f, who, p, kind) == 0
            &&& xf >= 0 ==> hit(g, o, p, kind, xf) == removed(f, p, kind) && hit(
                g2,
                o,
                p,
                kind,
                xf,
            ) == demoted(f, who, p, kind)
        }),
{
    let r1 = row_at(o, r, 1);
    let c1 = col_at(o, c, 1);
    if on_board(r1, c1) {
        lemma_cell_forward(g, o, r, c, who, p);
    }
}

/// The cell where the run before the new stone starts counts before for
/// that run, and after for the run that the stone forms or for the old run
/// with its near end closed.
pub proof fn lemma_hit_backward(g: Grid, o: int, r: int, c: int, who: Player, p: Player, kind: int)
    requires
        grid_wf(g),
        0 <= o < 4,
        on_board(r, c),
        free(g, r, c),
        0 <= kind < 7,
    ensures
        ({
            let g2 = put_grid(g, r, c, who);
            let f = cond_spec(g, o, r, c, 1);
            let b = cond_spec(g, o, r, c, -1);
            let xb = back_index(g, o, r, c, p);
            &&& -1 <= xb < CELLS
            &&& xb != cell_index(r, c)
            &&& xb != cell_index(row_at(o, r, 1), col_at(o, c, 1)) || xb == -1
            &&& xb == -1 ==> removed(b, p, kind) == 0 && demoted(b, who, p, kind) == 0 && (own(
                b,
                p,
            ) > 0 ==> created(f, b, who, p, kind) == 0)
            &&& xb >= 0 ==> own(b, p) > 0 && hit(g, o, p, kind, xb) == removed(b, p, kind) && hit(
                g2,
                o,
                p,
                kind,
                xb,
            ) == created(f, b, who, p, kind) + demoted(b, who, p, kind)
        }),
{
    let b = cond_spec(g, o, r, c, -1);
    let n = own(b, p);
    if 1 <= n <= 4 {
        lemma_cell_backward(g, o, r, c, who, p);
    }
}

/// What a stone of `who` on the empty cell (`r`, `c`) does to the number of
/// runs of `p` of bucket `kind` along axis `o`: the runs on the two sides of
/// the cell leave their buckets, the run that the stone forms enters its
/// bucket, and a run of the opponent that the stone closes enters the bucket
/// of its new shape.
pub proof fn lemma_axis_put(g: Grid, o: int, r: int, c: int, who: Player, p: Player, kind: int)
    requires
        grid_wf(g),
        0 <= o < 4,
        on_board(r, c),
        free(g, r, c),
        0 <= kind < 7,
    ensures
        axis_count(put_grid(g, r, c, who), o, p, kind) == axis_count(g, o, p, kind) + axis_delta(
            cond_spec(g, o, r, c, 1),
            cond_spec(g, o, r, c, -1),
            who,
            p,
            kind,
        ),
        axis_count(g, o, p, kind) >= removed(cond_spec(g, o, r, c, 1), p, kind) + removed(
            cond_spec(g, o, r, c, -1),
            p,
            kind,
        ),
{
    let g2 = put_grid(g, r, c, who);
    let f = cond_spec(g, o, r, c, 1);
    let b = cond_spec(g, o, r, c, -1);
    let before = |i: int| hit(g, o, p, kind, i);
    let after = |i: int| hit(g2, o, p, kind, i);
    let x = cell_index(r, c);
    let xf = cell_index(row_at(o, r, 1), col_at(o, c, 1));
    let xb = back_index(g, o, r, c, p);
    lemma_hits_elsewhere(g, o, r, c, who, p, kind);
    lemma_hit_new(g, o, r, c, who, p, kind);
    lemma_hit_forward(g, o, r, c, who, p, kind);
    lemma_hit_backward(g, o, r, c, who, p, kind);
    lemma_sum_delta(before, after, CELLS as nat, x, xf, xb);
    lemma_sum_nonnegative(before, CELLS as nat);
    if removed(f, p, kind) == 1 && removed(b, p, kind) == 1 {
        if xb < xf {
            lemma_sum_at_least_two(before, CELLS as nat, xb, xf);
        }
    } else if removed(f, p, kind) == 1 {
        lemma_sum_at_least(before, CELLS as nat, xf);
    } else if removed(b, p, kind) == 1 {
        lemma_sum_at_least(before, CELLS as nat, xb);
    }
}

/// Five in a row that were on the board stay on it when a stone is placed.
pub proof fn lemma_five_stays(g: Grid, r: int, c: int, who: Player, p: Player)
    requires
        grid_wf(g),
        on_board(r, c),
        free(g, r, c),
        has_five(g, p),
    ensures
        has_five(put_grid(g, r, c, who), p),
{
    let g2 = put_grid(g, r, c, who);
    let (o, r0, c0) = choose|o: int, r0: int, c0: int|
        0 <= o < 4 && #[trigger] five_at(g, o, r0, c0, p);
    assert(five_at(g2, o, r0, c0, p));
}

/// A stone that joins four or more stones of its player along one axis makes
/// five in a row.
pub proof fn lemma_five_made(g: Grid, o: int, r: int, c: int, who: Player)
    requires
        grid_wf(g),
        0 <= o < 4,
        on_board(r, c),
        free(g, r, c),
        completes_five(g, o, r, c, who),
    ensures
        has_five(put_grid(g, r, c, who), who),
{
    let g2 = put_grid(g, r, c, who);
    let a = arm(g, o, r, c, -1, who, 5);
    let back = if a <= 4 {
        a
    } else {
        4
    };
    let r0 = row_at(o, r, -back);
    let c0 = col_at(o, c, -back);
    assert forall|k: int| 0 <= k <= 4 implies held(
        g2,
        #[trigger] row_at(o, r0, k),
        col_at(o, c0, k),
        who,
    ) by {
        if k < back {
            let j = back - k;
            lemma_arm_cells(g, o, r, c, -1, who, 5, j);
        } else if k > back {
            let j = k - back;
            lemma_arm_cells(g, o, r, c, 1, who, 5, j);
        }
    }
    assert(held(g2, row_at(o, r0, 0), col_at(o, c0, 0), who));
    assert(five_at(g2, o, r0, c0, who));
}

/// Five in a row on the board after a stone is placed were there before, or
/// the stone completes them.
pub proof fn lemma_five_source(g: Grid, r: int, c: int, who: Player, p: Player)
    requires
        grid_wf(g),
        on_board(r, c),
        free(g, r, c),
        has_five(put_grid(g, r, c, who), p),
    ensures
        has_five(g, p) || (p == who && wins_within(g, r, c, who, 4)),
{
    let g2 = put_grid(g, r, c, who);
    let (o, r0, c0) = choose|o: int, r0: int, c0: int|
        0 <= o < 4 && #[trigger] five_at(g2, o, r0, c0, p);
    assert(held(g2, row_at(o, r0, 0), col_at(o, c0, 0), p));
    assert forall|k: int| 0 <= k <= 4 implies held(
        g2,
        #[trigger] row_at(o, r0, k),
        col_at(o, c0, k),
        p,
    ) by {}
    if exists|k: int| 0 <= k <= 4 && #[trigger] row_at(o, r0, k) == r && col_at(o, c0, k) == c {
        let k0 = choose|k: int|
            0 <= k <= 4 && #[trigger] row_at(o, r0, k) == r && col_at(o, c0, k) == c;
        lemma_arm_at_least(g, o, r, c, -1, who, 5, k0 as nat);
        lemma_arm_at_least(g, o, r, c, 1, who, 5, (4 - k0) as nat);
    } else {
        assert(five_at(g, o, r0, c0, p));
    }
}

/// After a stone of `who` is placed on an empty cell, a player has five in
/// a row exactly if the player had them before or is `who` and the stone
/// completes them along some axis.
pub proof fn lemma_five_put(g: Grid, r: int, c: int, who: Player, p: Player)
    requires
        grid_wf(g),
        on_board(r, c),
        free(g, r, c),
    ensures
        has_five(put_grid(g, r, c, who), p) <==> has_five(g, p) || (p == who && wins_within(
            g,
            r,
            c,
            who,
            4,
        )),
{
    if has_five(put_grid(g, r, c, who), p) {
        lemma_five_source(g, r, c, who, p);
    }
    if has_five(g, p) {
        lemma_five_stays(g, r, c, who, p);
    }
    if p == who {
        if completes_five(g, 0, r, c, who) {
            lemma_five_made(g, 0, r, c, who);
        }
        if completes_five(g, 1, r, c, who) {
            lemma_five_made(g, 1, r, c, who);
        }
        if completes_five(g, 2, r, c, who) {
            lemma_five_made(g, 2, r, c, who);
        }
        if completes_five(g, 3, r, c, who) {
            lemma_five_made(g, 3, r, c, who);
        }
    }
}

/// A stone on an empty cell makes one stone more.
pub proof fn lemma_stones_put(g: Grid, r: int, c: int, who: Player)
    requires
        grid_wf(g),
        on_board(r, c),
        free(g, r, c),
    ensures
        stones(put_grid(g, r, c, who)) == stones(g) + 1,
        0 <= stones(g) < 225,
{
    let g2 = put_grid(g, r, c, who);
    let before = |i: int| occupied(g, i);
    let after = |i: int| occupied(g2, i);
    let x = cell_index(r, c);
    lemma_sum_delta(before, after, CELLS as nat, x, -1, -1);
    lemma_sum_all_ones(before, CELLS as nat);
    lemma_sum_nonnegative(before, CELLS as nat);
}

/// The board is full exactly when it holds as many stones as it has cells.
pub proof fn lemma_full_count(g: Grid)
    ensures
        0 <= stones(g) <= 225,
        full(g) <==> stones(g) == 225,
{
    let f = |i: int| occupied(g, i);
    lemma_sum_all_ones(f, CELLS as nat);
    lemma_sum_nonnegative(f, CELLS as nat);
    if stones(g) == 225 {
        assert forall|r: int, c: int| on_board(r, c) implies #[trigger] g[r][c]
            != GoPiece::Empty by {
            let i = r * 15 + c;
            assert(f(i) == 1);
        }
    }
}

/// The number of runs of `p` of bucket `kind` when the first `n` axes are
/// scanned on the grid `g2` and the others on the grid `g`.
pub open spec fn mixed_count(g: Grid, g2: Grid, n: int, p: Player, kind: int) -> int {
    (if n > 0 {
        axis_count(g2, 0, p, kind)
    } else {
        axis_count(g, 0, p, kind)
    }) + (if n > 1 {
        axis_count(g2, 1, p, kind)
    } else {
        axis_count(g, 1, p, kind)
    }) + (if n > 2 {
        axis_count(g2, 2, p, kind)
    } else {
        axis_count(g, 2, p, kind)
    }) + (if n > 3 {
        axis_count(g2, 3, p, kind)
    } else {
        axis_count(g, 3, p, kind)
    })
}

/// What a stone on the empty cell (`r`, `c`) does along axis `o` to a count
/// that has the first `o` axes up to date: the count takes the change of
/// that axis, it had at least the runs that leave it, and it stays far below
/// the limit of a counter.
pub proof fn lemma_mixed_step(g: Grid, o: int, r: int, c: int, who: Player, p: Player, kind: int)
    requires
        grid_wf(g),
        0 <= o < 4,
        on_board(r, c),
        free(g, r, c),
        0 <= kind < 7,
    ensures
        mixed_count(g, put_grid(g, r, c, who), o + 1, p, kind) == mixed_count(
            g,
            put_grid(g, r, c, who),
            o,
            p,
            kind,
        ) + axis_delta(cond_spec(g, o, r, c, 1), cond_spec(g, o, r, c, -1), who, p, kind),
        mixed_count(g, put_grid(g, r, c, who), o, p, kind) >= removed(
            cond_spec(g, o, r, c, 1),
            p,
            kind,
        ) + removed(cond_spec(g, o, r, c, -1), p, kind),
        0 <= mixed_count(g, put_grid(g, r, c, who), o, p, kind) <= 900,
{
    let g2 = put_grid(g, r, c, who);
    lemma_axis_put(g, o, r, c, who, p, kind);
    lemma_axis_count_bounds(g, 0, p, kind);
    lemma_axis_count_bounds(g, 1, p, kind);
    lemma_axis_count_bounds(g, 2, p, kind);
    lemma_axis_count_bounds(g, 3, p, kind);
    lemma_axis_count_bounds(g2, 0, p, kind);
    lemma_axis_count_bounds(g2, 1, p, kind);
    lemma_axis_count_bounds(g2, 2, p, kind);
}

/// On the empty grid there is nothing to count.
pub proof fn lemma_empty_grid(p: Player)
    ensures
        grid_wf(empty_grid()),
        stones(empty_grid()) == 0,
        !has_five(empty_grid(), p),
        forall|kind: int| 0 <= kind < 7 ==> #[trigger] count(empty_grid(), p, kind) == 0,
{
    let g = empty_grid();
    let blank = |i: int| occupied(g, i);
    lemma_sum_bounds(blank, CELLS as nat, 0, 0);
    assert forall|kind: int| 0 <= kind < 7 implies #[trigger] count(g, p, kind) == 0 by {
        lemma_empty_axis(p, kind, 0);
        lemma_empty_axis(p, kind, 1);
        lemma_empty_axis(p, kind, 2);
        lemma_empty_axis(p, kind, 3);
    }
}

/// On the empty grid no run is counted along any axis.
pub proof fn lemma_empty_axis(p: Player, kind: int, o: int)
    requires
        0 <= kind < 7,
    ensures
        axis_count(empty_grid(), o, p, kind) == 0,
{
    let g = empty_grid();
    let none = |i: int| hit(g, o, p, kind, i);
    lemma_sum_bounds(none, CELLS as nat, 0, 0);
}

} // verus!
