//! What holds of the scoring engine on every board.

use crate::base::{GameState, OutCome, Player};
use crate::sums::lemma_sum_delta;
use super::{outcome, GoBoard, GoPiece, GoScores, GoStep};
use super::candidates::{
    covers, forcing, is_candidate_list, kept, lemma_candidates_while_room, lemma_forcing_kept,
};
use super::pattern::{
    arm, axis_count, col_at, count, five_at, free, full, grid_wf, has_five, hit, on_board,
    put_grid, row_at, run_len, score_of, starts_run, Grid, CELLS,
};
use super::placing::lemma_five_stays;
use super::rescan::lemma_five_has_start;
use vstd::prelude::*;

verus! {

/// The counters that a board has kept up to date, stone by stone, are the
/// counters that a scan of its grid gives.
pub proof fn lemma_counters_equal_rescan(board: GoBoard, p: Player, scanned: GoScores)
    requires
        board.well_formed(),
        p.valid(),
        scanned.tallies(board@, p),
    ensures
        board.scores[p.0 as int] == scanned,
{
    let kept = board.scores[p.0 as int];
    assert forall|k: int| 0 <= k < 4 implies kept.non_block[k] == scanned.non_block[k] by {
        assert(kept.bucket(k) == scanned.bucket(k));
    }
    assert forall|k: int| 0 <= k < 3 implies kept.block[k] == scanned.block[k] by {
        assert(kept.bucket(k + 4) == scanned.bucket(k + 4));
    }
    assert(kept.non_block =~= scanned.non_block);
    assert(kept.block =~= scanned.block);
}

/// However many plies are left, the search has a step to try exactly as
/// long as a cell of the board is empty, and it tries each cell on which a
/// player completes five in a row.
pub proof fn lemma_candidates_suffice(
    g: Grid,
    player: Player,
    deep: u8,
    s: Seq<GoStep>,
    r: int,
    c: int,
)
    requires
        grid_wf(g),
        is_candidate_list(g, player, deep, s),
    ensures
        s.len() == 0 <==> full(g),
        free(g, r, c) && forcing(g, r, c) ==> covers(s, r, c),
{
    if free(g, r, c) && forcing(g, r, c) {
        lemma_forcing_kept(g, deep, r, c);
    }
    lemma_candidates_while_room(g, player, deep, s);
}

/// The score is zero-sum: what a position is worth to one player, it costs
/// the other.
pub proof fn lemma_score_zero_sum(g: Grid, p: Player)
    requires
        p.valid(),
    ensures
        score_of(g, p.other()) == -score_of(g, p),
{
}

/// The grid with the stones of the two players exchanged.
pub open spec fn swapped(g: Grid) -> Grid {
    Seq::new(
        15,
        |r: int|
            Seq::new(
                15,
                |c: int|
                    match g[r][c] {
                        GoPiece::P(q) => GoPiece::P(q.other()),
                        GoPiece::Empty => GoPiece::Empty,
                    },
            ),
    )
}

/// An arm of a player on the grid with the stones exchanged is the arm of
/// the opponent on the grid itself.
pub proof fn lemma_swapped_arm(g: Grid, o: int, r: int, c: int, s: int, p: Player, n: nat)
    requires
        grid_wf(g),
        p.valid(),
    ensures
        arm(swapped(g), o, r, c, s, p, n) == arm(g, o, r, c, s, p.other(), n),
    decreases n,
{
    if n > 0 {
        lemma_swapped_arm(g, o, row_at(o, r, s), col_at(o, c, s), s, p, (n - 1) as nat);
    }
}

/// A player has on the grid with the stones exchanged the runs that the
/// opponent has on the grid itself, and five in a row where the opponent has.
pub proof fn lemma_swapped_counts(g: Grid, p: Player)
    requires
        grid_wf(g),
        p.valid(),
    ensures
        has_five(swapped(g), p) == has_five(g, p.other()),
        forall|kind: int| #[trigger] count(swapped(g), p, kind) == count(g, p.other(), kind),
{
    let s = swapped(g);
    let q = p.other();
    assert forall|o: int, kind: int| #[trigger] axis_count(s, o, p, kind) == axis_count(
        g,
        o,
        q,
        kind,
    ) by {
        let before = |i: int| hit(g, o, q, kind, i);
        let after = |i: int| hit(s, o, p, kind, i);
        assert forall|i: int|
            0 <= i < CELLS && i != -1 && i != -1 && i != -1 implies #[trigger] before(i) == after(
            i,
        ) by {
            lemma_swapped_arm(g, o, i / 15, i % 15, 1, p, 14);
        }
        lemma_sum_delta(before, after, CELLS as nat, -1, -1, -1);
    }
    if has_five(g, q) {
        let (o, r, c) = choose|o: int, r: int, c: int|
            0 <= o < 4 && #[trigger] five_at(g, o, r, c, q);
        assert(five_at(s, o, r, c, p));
    }
    if has_five(s, p) {
        let (o, r, c) = choose|o: int, r: int, c: int|
            0 <= o < 4 && #[trigger] five_at(s, o, r, c, p);
        assert(five_at(g, o, r, c, q));
    }
}

/// Exchanging the stones of the two players negates the score, and so does
/// asking for the score of the other player; doing both leaves the score as
/// it is.
pub proof fn lemma_score_symmetry(g: Grid, p: Player)
    requires
        grid_wf(g),
        p.valid(),
    ensures
        score_of(swapped(g), p) == -score_of(g, p),
        score_of(g, p.other()) == -score_of(g, p),
        score_of(swapped(g), p.other()) == score_of(g, p),
{
    lemma_swapped_counts(g, p);
    lemma_swapped_counts(g, p.other());
}

/// Where the score is 0, exchanging the stones together with asking for the
/// score of the other player negates it too; elsewhere the two changes
/// cancel.
pub proof fn lemma_score_twice_swapped(g: Grid, p: Player)
    requires
        grid_wf(g),
        p.valid(),
        score_of(g, p) == 0,
    ensures
        score_of(swapped(g), p.other()) == -score_of(g, p),
{
    lemma_score_symmetry(g, p);
}

/// Every step that the search tries can be played: it is a step of the
/// player it is tried for, onto an empty cell of the board.
pub proof fn lemma_candidates_playable(
    g: Grid,
    player: Player,
    deep: u8,
    s: Seq<GoStep>,
    i: int,
)
    requires
        player.valid(),
        is_candidate_list(g, player, deep, s),
        0 <= i < s.len(),
    ensures
        s[i].who == player,
        on_board(s[i].pos.0 as int, s[i].pos.1 as int),
        g[s[i].pos.0 as int][s[i].pos.1 as int] == GoPiece::Empty,
        s[i].fits(g),
{
}

/// A win is final: a player who has five in a row still has them after any
/// stone is placed, so the game stays decided.
pub proof fn lemma_win_is_final(g: Grid, step: GoStep, p: Player)
    requires
        grid_wf(g),
        step.fits(g),
        has_five(g, p),
    ensures
        has_five(put_grid(g, step.pos.0 as int, step.pos.1 as int, step.who), p),
        outcome(put_grid(g, step.pos.0 as int, step.pos.1 as int, step.who)) is Over,
{
    lemma_five_stays(g, step.pos.0 as int, step.pos.1 as int, step.who, p);
}

/// Only five stones make a win: a player whose runs all have four stones or
/// fewer has not won, however open those runs are.
pub proof fn lemma_four_is_no_win(g: Grid, p: Player)
    requires
        forall|o: int, r: int, c: int|
            0 <= o < 4 && on_board(r, c) && #[trigger] starts_run(g, o, r, c, p) ==> run_len(
                g,
                o,
                r,
                c,
                p,
            ) <= 4,
    ensures
        !has_five(g, p),
        outcome(g) != GameState::Over(OutCome::Winer(p)),
{
    if has_five(g, p) {
        lemma_five_has_start(g, p);
    }
}

} // verus!
