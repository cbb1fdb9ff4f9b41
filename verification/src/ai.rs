//! Depth-limited minimax search with alpha-beta pruning over any game.
//!
//! The value of a line of play is defined by plain minimax, without any
//! pruning ([`node_value`]). The search prunes, and its contract says that the
//! answer is nevertheless the one plain minimax gives.

use crate::base::{Board, GameState, Player, Step};
use vstd::prelude::*;

verus! {

/// The ply budget of a search started without an explicit depth.
pub const SEARCH_DEPTH: u8 = 30;

/// A board that can be searched: it rates positions and proposes steps.
pub trait AI<S: Step>: Board<S> {
    /// The heuristic value of position `m` for `player`.
    spec fn score_spec(m: Self::V, player: Player) -> int;

    /// The steps worth exploring for `player` in position `m` with `deep`
    /// plies left, in the order the search tries them.
    spec fn steps_spec(m: Self::V, player: Player, deep: u8) -> Seq<S>;

    /// Scores never reach the extremes of `i32`, which the search uses as
    /// "nothing found yet".
    proof fn lemma_score_bounded(m: Self::V, player: Player)
        ensures
            i32::MIN < Self::score_spec(m, player) < i32::MAX,
    ;

    /// The heuristic value of this position for `player`.
    fn score(&self, player: Player) -> (s: i32)
        requires
            self.wf(),
            player.valid(),
        ensures
            s == Self::score_spec(self@, player),
    ;

    /// The steps worth exploring for `player` with `deep` plies left. Each of
    /// them is a legal step of `player`.
    fn get_possible_steps(&self, player: Player, deep: u8) -> (v: Vec<S>)
        requires
            self.wf(),
            player.valid(),
        ensures
            v@ == Self::steps_spec(self@, player, deep),
            forall|i: int|
                0 <= i < v.len() ==> Self::can_put_spec(self@, #[trigger] v[i])
                    && v[i].who_spec() == player,
    ;
}

/// The larger of two integers.
pub open spec fn max_int(a: int, b: int) -> int {
    if a >= b {
        a
    } else {
        b
    }
}

/// The smaller of two integers.
pub open spec fn min_int(a: int, b: int) -> int {
    if a <= b {
        a
    } else {
        b
    }
}

/// The minimax value, for `me`, of playing `step` in position `m` when `deep`
/// plies remain, this one included.
///
/// The line stops, and the position reached is rated by the heuristic, when
/// the budget is spent, the game is over, or no step is proposed. Otherwise
/// the player to move picks the reply that is best for `me` if it is `me`,
/// and worst for `me` if it is the opponent.
pub open spec fn node_value<B: AI<S>, S: Step>(m: B::V, step: S, me: Player, deep: u8) -> int
    decreases deep, 0nat,
{
    let after = B::put_spec(m, step);
    let mover = step.who_spec().other();
    if deep <= 1 || B::over_spec(after) != GameState::Running {
        B::score_spec(after, me)
    } else {
        let replies = B::steps_spec(after, mover, (deep - 1) as u8);
        if replies.len() == 0 {
            B::score_spec(after, me)
        } else {
            extreme_value::<B, S>(after, replies, replies.len(), me, (deep - 1) as u8, mover == me)
        }
    }
}

/// The largest (`maximize`) or smallest value among the first `k` of `steps`,
/// each played in position `m` with `deep` plies remaining. With `k == 0` it
/// is the extreme that every value beats.
pub open spec fn extreme_value<B: AI<S>, S: Step>(
    m: B::V,
    steps: Seq<S>,
    k: nat,
    me: Player,
    deep: u8,
    maximize: bool,
) -> int
    decreases deep, k,
{
    if k == 0 || k > steps.len() {
        if maximize {
            i32::MIN as int
        } else {
            i32::MAX as int
        }
    } else {
        let rest = extreme_value::<B, S>(m, steps, (k - 1) as nat, me, deep, maximize);
        let v = node_value::<B, S>(m, steps[k - 1], me, deep);
        if maximize {
            max_int(rest, v)
        } else {
            min_int(rest, v)
        }
    }
}

/// `steps[i]` is the first step of `steps` with the largest minimax value for
/// `me`: no step is better, and every earlier step is strictly worse.
pub open spec fn is_first_best<B: AI<S>, S: Step>(
    m: B::V,
    steps: Seq<S>,
    me: Player,
    deep: u8,
    i: int,
) -> bool {
    &&& 0 <= i < steps.len()
    &&& forall|j: int|
        0 <= j < steps.len() ==> #[trigger] node_value::<B, S>(m, steps[j], me, deep)
            <= node_value::<B, S>(m, steps[i], me, deep)
    &&& forall|j: int|
        0 <= j < i ==> #[trigger] node_value::<B, S>(m, steps[j], me, deep) < node_value::<B, S>(
            m,
            steps[i],
            me,
            deep,
        )
}

/// Every minimax value lies strictly between the extremes of `i32`.
pub proof fn lemma_node_value_bounded<B: AI<S>, S: Step>(m: B::V, step: S, me: Player, deep: u8)
    ensures
        i32::MIN < node_value::<B, S>(m, step, me, deep) < i32::MAX,
    decreases deep, 0nat,
{
    let after = B::put_spec(m, step);
    let mover = step.who_spec().other();
    B::lemma_score_bounded(after, me);
    if deep > 1 && B::over_spec(after) == GameState::Running {
        let replies = B::steps_spec(after, mover, (deep - 1) as u8);
        if replies.len() > 0 {
            lemma_extreme_value_bounded::<B, S>(
                after,
                replies,
                replies.len(),
                me,
                (deep - 1) as u8,
                mover == me,
            );
        }
    }
}

/// The extreme over a non-empty prefix lies strictly between the extremes of
/// `i32`.
pub proof fn lemma_extreme_value_bounded<B: AI<S>, S: Step>(
    m: B::V,
    steps: Seq<S>,
    k: nat,
    me: Player,
    deep: u8,
    maximize: bool,
)
    requires
        1 <= k <= steps.len(),
    ensures
        i32::MIN < extreme_value::<B, S>(m, steps, k, me, deep, maximize) < i32::MAX,
    decreases deep, k,
{
    lemma_node_value_bounded::<B, S>(m, steps[k - 1], me, deep);
    if k > 1 {
        lemma_extreme_value_bounded::<B, S>(m, steps, (k - 1) as nat, me, deep, maximize);
    } else {
        assert(extreme_value::<B, S>(m, steps, 0, me, deep, maximize) == if maximize {
            i32::MIN as int
        } else {
            i32::MAX as int
        });
    }
}

/// Taking more steps into account can only raise a maximum and lower a
/// minimum.
pub proof fn lemma_extreme_value_monotone<B: AI<S>, S: Step>(
    m: B::V,
    steps: Seq<S>,
    k: nat,
    n: nat,
    me: Player,
    deep: u8,
    maximize: bool,
)
    requires
        k <= n <= steps.len(),
    ensures
        maximize ==> extreme_value::<B, S>(m, steps, k, me, deep, maximize) <= extreme_value::<
            B,
            S,
        >(m, steps, n, me, deep, maximize),
        !maximize ==> extreme_value::<B, S>(m, steps, k, me, deep, maximize) >= extreme_value::<
            B,
            S,
        >(m, steps, n, me, deep, maximize),
    decreases n - k,
{
    if k < n {
        lemma_extreme_value_monotone::<B, S>(m, steps, k, (n - 1) as nat, me, deep, maximize);
    }
}

/// The minimax value, for `me`, of playing `step` on `board` with `deep` plies
/// remaining, as far as the window from `alpha` to `beta` needs it.
///
/// A result strictly inside the window is the exact minimax value. A result
/// at or below `alpha` is an upper bound of it, and one at or above `beta` a
/// lower bound: the caller already has an alternative that is at least as
/// good, so the exact value could not change its choice.
///
/// Where the line ends with this step, because it spends the last ply, ends
/// the game, or leaves no step to propose, the result is the score of the
/// position reached, whatever the window.
pub fn get_score<B: AI<S>, S: Step>(
    board: &B,
    step: S,
    me: Player,
    deep: u8,
    alpha: i32,
    beta: i32,
) -> (r: i32)
    requires
        board.wf(),
        B::can_put_spec(board@, step),
        step.who_spec().valid(),
        me.valid(),
        deep >= 1,
        alpha < beta,
    ensures
        r <= alpha ==> node_value::<B, S>(board@, step, me, deep) <= r,
        r >= beta ==> node_value::<B, S>(board@, step, me, deep) >= r,
        alpha < r < beta ==> node_value::<B, S>(board@, step, me, deep) == r,
        deep == 1 || B::over_spec(B::put_spec(board@, step)) != GameState::Running
            || B::steps_spec(
            B::put_spec(board@, step),
            step.who_spec().other(),
            (deep - 1) as u8,
        ).len() == 0 ==> r == B::score_spec(B::put_spec(board@, step), me),
    decreases deep,
{
    let player = step.who();
    let new_board = board.copy_put(step).unwrap();
    if deep == 1 || new_board.over() != GameState::Running {
        return new_board.score(me);
    }
    let mover = player.rev();
    let steps = new_board.get_possible_steps(mover, deep - 1);
    let n = steps.len();
    if n == 0 {
        return new_board.score(me);
    }
    let ghost after = new_board@;
    let maximize = mover == me;
    let mut i: usize = 0;
    if maximize {
        let mut best = i32::MIN;
        let mut low = alpha;
        while i < n
            invariant
                i <= n,
                n == steps.len(),
                deep > 1,
                me.valid(),
                mover.valid(),
                new_board.wf(),
                after == new_board@,
                steps@ == B::steps_spec(after, mover, (deep - 1) as u8),
                forall|j: int|
                    0 <= j < n ==> B::can_put_spec(after, #[trigger] steps[j])
                        && steps[j].who_spec() == mover,
                n > 0,
                after == B::put_spec(board@, step),
                mover == step.who_spec().other(),
                B::over_spec(after) == GameState::Running,
                node_value::<B, S>(board@, step, me, deep) == extreme_value::<B, S>(
                    after,
                    steps@,
                    n as nat,
                    me,
                    (deep - 1) as u8,
                    true,
                ),
                alpha < beta,
                low < beta,
                best < beta,
                low == max_int(alpha as int, best as int),
                extreme_value::<B, S>(after, steps@, i as nat, me, (deep - 1) as u8, true) <= best,
                best > alpha ==> extreme_value::<B, S>(
                    after,
                    steps@,
                    i as nat,
                    me,
                    (deep - 1) as u8,
                    true,
                ) == best,
            decreases n - i,
        {
            let score = get_score(&new_board, steps[i], me, deep - 1, low, beta);
            if score > best {
                best = score;
            }
            if best >= beta {
                proof {
                    lemma_extreme_value_monotone::<B, S>(
                        after,
                        steps@,
                        (i + 1) as nat,
                        n as nat,
                        me,
                        (deep - 1) as u8,
                        true,
                    );
                }
                return best;
            }
            if best > low {
                low = best;
            }
            i += 1;
        }
        best
    } else {
        let mut best = i32::MAX;
        let mut high = beta;
        while i < n
            invariant
                i <= n,
                n == steps.len(),
                deep > 1,
                me.valid(),
                mover.valid(),
                new_board.wf(),
                after == new_board@,
                steps@ == B::steps_spec(after, mover, (deep - 1) as u8),
                forall|j: int|
                    0 <= j < n ==> B::can_put_spec(after, #[trigger] steps[j])
                        && steps[j].who_spec() == mover,
                n > 0,
                after == B::put_spec(board@, step),
                mover == step.who_spec().other(),
                B::over_spec(after) == GameState::Running,
                node_value::<B, S>(board@, step, me, deep) == extreme_value::<B, S>(
                    after,
                    steps@,
                    n as nat,
                    me,
                    (deep - 1) as u8,
                    false,
                ),
                alpha < beta,
                alpha < high,
                alpha < best,
                high == min_int(beta as int, best as int),
                extreme_value::<B, S>(after, steps@, i as nat, me, (deep - 1) as u8, false) >= best,
                best < beta ==> extreme_value::<B, S>(
                    after,
                    steps@,
                    i as nat,
                    me,
                    (deep - 1) as u8,
                    false,
                ) == best,
            decreases n - i,
        {
            let score = get_score(&new_board, steps[i], me, deep - 1, alpha, high);
            if score < best {
                best = score;
            }
            if best <= alpha {
                proof {
                    lemma_extreme_value_monotone::<B, S>(
                        after,
                        steps@,
                        (i + 1) as nat,
                        n as nat,
                        me,
                        (deep - 1) as u8,
                        false,
                    );
                }
                return best;
            }
            if best < high {
                high = best;
            }
            i += 1;
        }
        best
    }
}

/// The step that is best for `player` on `board` by minimax over `deep`
/// plies, or `None` when no step is proposed.
///
/// Among steps of equal value the first proposed wins, so the choice is the
/// one that a search without pruning makes.
pub fn search_best_step<B: AI<S>, S: Step>(board: &B, player: Player, deep: u8) -> (best: Option<S>)
    requires
        board.wf(),
        player.valid(),
        deep >= 1,
    ensures
        best is None <==> B::steps_spec(board@, player, deep).len() == 0,
        best matches Some(s) ==> exists|i: int|
            is_first_best::<B, S>(board@, B::steps_spec(board@, player, deep), player, deep, i)
                && B::steps_spec(board@, player, deep)[i] == s,
        best matches Some(s) ==> B::can_put_spec(board@, s) && s.who_spec() == player,
{
    let steps = board.get_possible_steps(player, deep);
    let n = steps.len();
    let mut best: Option<S> = None;
    let mut score = i32::MIN;
    let ghost mut at: int = 0;
    let mut i: usize = 0;
    while i < n
        invariant
            i <= n,
            n == steps.len(),
            deep >= 1,
            board.wf(),
            player.valid(),
            steps@ == B::steps_spec(board@, player, deep),
            forall|j: int|
                0 <= j < n ==> B::can_put_spec(board@, #[trigger] steps[j]) && steps[j].who_spec()
                    == player,
            i == 0 ==> best is None && score == i32::MIN,
            i > 0 ==> {
                &&& 0 <= at < i
                &&& best == Some(steps[at])
                &&& score == node_value::<B, S>(board@, steps[at], player, deep)
            },
            forall|j: int|
                0 <= j < i ==> #[trigger] node_value::<B, S>(board@, steps[j], player, deep)
                    <= score,
            forall|j: int|
                0 <= j < at ==> #[trigger] node_value::<B, S>(board@, steps[j], player, deep)
                    < score,
        decreases n - i,
    {
        let ns = get_score(board, steps[i], player, deep, i32::MIN, i32::MAX);
        proof {
            lemma_node_value_bounded::<B, S>(board@, steps[i as int], player, deep);
        }
        if score < ns {
            score = ns;
            best = Some(steps[i]);
            proof {
                at = i as int;
            }
        }
        i += 1;
    }
    best
}

/// The step that the search picks for `player` on `board` with the standard
/// ply budget.
pub fn get_next_best_step<B: AI<S>, S: Step>(board: &B, player: Player) -> (best: Option<S>)
    requires
        board.wf(),
        player.valid(),
    ensures
        best is None <==> B::steps_spec(board@, player, SEARCH_DEPTH).len() == 0,
        best matches Some(s) ==> exists|i: int|
            is_first_best::<B, S>(
                board@,
                B::steps_spec(board@, player, SEARCH_DEPTH),
                player,
                SEARCH_DEPTH,
                i,
            ) && B::steps_spec(board@, player, SEARCH_DEPTH)[i] == s,
        best matches Some(s) ==> B::can_put_spec(board@, s) && s.who_spec() == player,
{
    search_best_step(board, player, SEARCH_DEPTH)
}

} // verus!
