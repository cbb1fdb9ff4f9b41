//! Facts about arms that the proofs of the scoring engine rest on.

use crate::base::Player;
use super::pattern::{arm, col_at, held, row_at, toward, Grid};
use vstd::prelude::*;

verus! {

/// An arm is no longer than its limit.
pub proof fn lemma_arm_limit(g: Grid, o: int, r: int, c: int, s: int, p: Player, n: nat)
    ensures
        0 <= arm(g, o, r, c, s, p, n) <= n,
    decreases n,
{
    if n > 0 {
        lemma_arm_limit(g, o, row_at(o, r, s), col_at(o, c, s), s, p, (n - 1) as nat);
    }
}

/// Every cell of an arm holds a stone of its player.
pub proof fn lemma_arm_cells(
    g: Grid,
    o: int,
    r: int,
    c: int,
    s: int,
    p: Player,
    n: nat,
    j: int,
)
    requires
        s == 1 || s == -1,
        1 <= j <= arm(g, o, r, c, s, p, n),
    ensures
        held(g, row_at(o, r, toward(s, j)), col_at(o, c, toward(s, j)), p),
    decreases n,
{
    if j > 1 {
        lemma_arm_cells(g, o, row_at(o, r, s), col_at(o, c, s), s, p, (n - 1) as nat, j - 1);
    }
}

/// An arm that stops short of its limit stops before a cell that does not
/// hold a stone of its player.
pub proof fn lemma_arm_stop(g: Grid, o: int, r: int, c: int, s: int, p: Player, n: nat)
    requires
        s == 1 || s == -1,
        arm(g, o, r, c, s, p, n) < n,
    ensures
        !held(
            g,
            row_at(o, r, toward(s, arm(g, o, r, c, s, p, n) + 1)),
            col_at(o, c, toward(s, arm(g, o, r, c, s, p, n) + 1)),
            p,
        ),
    decreases n,
{
    if n > 0 && held(g, row_at(o, r, s), col_at(o, c, s), p) {
        lemma_arm_stop(g, o, row_at(o, r, s), col_at(o, c, s), s, p, (n - 1) as nat);
    }
}

/// If the first `m` cells along the way hold stones of `p`, the arm has at
/// least `m` stones, as far as its limit lets it.
pub proof fn lemma_arm_at_least(
    g: Grid,
    o: int,
    r: int,
    c: int,
    s: int,
    p: Player,
    n: nat,
    m: nat,
)
    requires
        s == 1 || s == -1,
        m <= n,
        forall|j: int|
            1 <= j <= m ==> held(
                g,
                #[trigger] row_at(o, r, toward(s, j)),
                col_at(o, c, toward(s, j)),
                p,
            ),
    ensures
        arm(g, o, r, c, s, p, n) >= m,
    decreases m,
{
    lemma_arm_limit(g, o, r, c, s, p, n);
    if m > 0 {
        assert(row_at(o, r, toward(s, 1)) == row_at(o, r, s));
        let r1 = row_at(o, r, s);
        let c1 = col_at(o, c, s);
        assert forall|j: int| 1 <= j <= m - 1 implies held(
            g,
            #[trigger] row_at(o, r1, toward(s, j)),
            col_at(o, c1, toward(s, j)),
            p,
        ) by {
            assert(row_at(o, r1, toward(s, j)) == row_at(o, r, toward(s, j + 1)));
        }
        lemma_arm_at_least(g, o, r1, c1, s, p, (n - 1) as nat, (m - 1) as nat);
    }
}

/// If the first `m` cells along the way hold stones of `p` and the next one
/// does not, the arm has exactly `m` stones.
pub proof fn lemma_arm_exact(
    g: Grid,
    o: int,
    r: int,
    c: int,
    s: int,
    p: Player,
    n: nat,
    m: nat,
)
    requires
        s == 1 || s == -1,
        m <= n,
        forall|j: int|
            1 <= j <= m ==> held(
                g,
                #[trigger] row_at(o, r, toward(s, j)),
                col_at(o, c, toward(s, j)),
                p,
            ),
        m == n || !held(
            g,
            row_at(o, r, toward(s, (m + 1) as int)),
            col_at(o, c, toward(s, (m + 1) as int)),
            p,
        ),
    ensures
        arm(g, o, r, c, s, p, n) == m,
{
    lemma_arm_at_least(g, o, r, c, s, p, n, m);
    lemma_arm_limit(g, o, r, c, s, p, n);
    if arm(g, o, r, c, s, p, n) > m {
        lemma_arm_cells(g, o, r, c, s, p, n, (m + 1) as int);
    }
}

/// No line of the board holds more than fifteen cells, so an arm that starts
/// on the board never reaches fourteen stones without ending there.
pub proof fn lemma_arm_on_board(g: Grid, o: int, r: int, c: int, s: int, p: Player, n: nat)
    requires
        s == 1 || s == -1,
        0 <= o < 4,
        0 <= r < 15,
        0 <= c < 15,
    ensures
        arm(g, o, r, c, s, p, n) <= 14,
{
    lemma_arm_limit(g, o, r, c, s, p, n);
    if arm(g, o, r, c, s, p, n) > 14 {
        lemma_arm_cells(g, o, r, c, s, p, n, 15);
    }
}

} // verus!
