//! Scoring of terminal states and the move-ordering heuristic: centre before
//! corners before edges, ties keeping the order of the input.

use vstd::prelude::*;

use crate::board::Board;
use crate::player::Player;
use crate::rules::{GameState, state_spec};

verus! {

/// Scoring constants and the move-ordering heuristic, as associated
/// functions.
pub struct Strategy;

/// The base value of a classified position for the searching side: +1 when
/// the AI has won, -1 when the human has won, 0 otherwise.
pub open spec fn eval_state_spec(state: GameState) -> int {
    match state {
        GameState::Win(Player::AI) => 1,
        GameState::Win(Player::Human) => -1,
        GameState::Draw => 0,
        GameState::InProgress => 0,
    }
}

/// The positional value of a cell: the centre is worth 3, a corner 2, an
/// edge 1, and anything out of range 0.
pub open spec fn priority_spec(position: usize) -> int {
    if position == 4 {
        3
    } else if position == 0 || position == 2 || position == 6 || position == 8 {
        2
    } else if position == 1 || position == 3 || position == 5 || position == 7 {
        1
    } else {
        0
    }
}

/// The elements of `moves` whose priority is exactly `k`, keeping their
/// relative order.
pub open spec fn keep_priority(moves: Seq<usize>, k: int) -> Seq<usize>
    decreases moves.len(),
{
    if moves.len() == 0 {
        Seq::empty()
    } else {
        keep_priority(moves.drop_last(), k) + if priority_spec(moves.last()) == k {
            seq![moves.last()]
        } else {
            Seq::empty()
        }
    }
}

/// `moves` stably sorted by descending priority: the priority-3 elements in
/// their original order, then the priority-2 ones, and so on.
pub open spec fn order_spec(moves: Seq<usize>) -> Seq<usize> {
    keep_priority(moves, 3) + keep_priority(moves, 2) + keep_priority(moves, 1) + keep_priority(
        moves,
        0,
    )
}

/// What `keep_priority` keeps: exactly the elements of `moves` whose
/// priority is `k`.
pub proof fn lemma_keep_priority_elems(moves: Seq<usize>, k: int)
    ensures
        forall|j: int| 0 <= j < keep_priority(moves, k).len()
            ==> priority_spec(#[trigger] keep_priority(moves, k)[j]) == k && moves.contains(
            keep_priority(moves, k)[j],
        ),
        forall|m: usize| moves.contains(m) && priority_spec(m) == k ==> #[trigger] keep_priority(
            moves,
            k,
        ).contains(m),
    decreases moves.len(),
{
    if moves.len() > 0 {
        let front = moves.drop_last();
        lemma_keep_priority_elems(front, k);
        assert forall|j: int| 0 <= j < keep_priority(moves, k).len()
            implies priority_spec(#[trigger] keep_priority(moves, k)[j]) == k && moves.contains(
            keep_priority(moves, k)[j],
        ) by {
            if j < keep_priority(front, k).len() {
                assert(keep_priority(moves, k)[j] == keep_priority(front, k)[j]);
                let i: int = choose|i: int| 0 <= i < front.len() && #[trigger] front[i]
                    == keep_priority(front, k)[j];
                assert(moves[i] == keep_priority(moves, k)[j]);
            } else {
                assert(keep_priority(moves, k)[j] == moves.last());
                assert(moves[moves.len() - 1] == moves.last());
            }
        }
        assert forall|m: usize| moves.contains(m) && priority_spec(m) == k
            implies #[trigger] keep_priority(moves, k).contains(m) by {
            let i: int = choose|i: int| 0 <= i < moves.len() && #[trigger] moves[i] == m;
            if i < moves.len() - 1 {
                assert(front[i] == m);
                assert(front.contains(m));
                assert(keep_priority(front, k).contains(m));
                let j: int = choose|j: int|
                    0 <= j < keep_priority(front, k).len() && #[trigger] keep_priority(front, k)[j]
                        == m;
                assert(keep_priority(moves, k)[j] == m);
            } else {
                assert(m == moves.last());
                assert(keep_priority(moves, k)[keep_priority(moves, k).len() - 1] == m);
            }
        }
    }
}

/// Ordering keeps exactly the elements of the input: every priority is one
/// of 0 to 3, so each element lands in exactly one of the four runs.
pub proof fn lemma_order_spec_contains(moves: Seq<usize>)
    ensures
        forall|m: usize| #[trigger] order_spec(moves).contains(m) <==> moves.contains(m),
        moves.len() > 0 ==> order_spec(moves).len() > 0,
{
    lemma_keep_priority_elems(moves, 3);
    lemma_keep_priority_elems(moves, 2);
    lemma_keep_priority_elems(moves, 1);
    lemma_keep_priority_elems(moves, 0);
    assert forall|m: usize| #[trigger] order_spec(moves).contains(m) implies moves.contains(m) by {
        let j: int = choose|j: int| 0 <= j < order_spec(moves).len() && #[trigger] order_spec(moves)[j]
            == m;
        let s3 = keep_priority(moves, 3);
        let s2 = keep_priority(moves, 2);
        let s1 = keep_priority(moves, 1);
        let s0 = keep_priority(moves, 0);
        if j < s3.len() {
            assert(s3[j] == m);
        } else if j < s3.len() + s2.len() {
            assert(s2[j - s3.len()] == m);
        } else if j < s3.len() + s2.len() + s1.len() {
            assert(s1[j - s3.len() - s2.len()] == m);
        } else {
            assert(s0[j - s3.len() - s2.len() - s1.len()] == m);
        }
    }
    assert forall|m: usize| moves.contains(m) implies #[trigger] order_spec(moves).contains(m) by {
        let k: int = priority_spec(m);
        assert(keep_priority(moves, k).contains(m));
        let j: int = choose|j: int|
            0 <= j < keep_priority(moves, k).len() && #[trigger] keep_priority(moves, k)[j] == m;
        let s3 = keep_priority(moves, 3);
        let s2 = keep_priority(moves, 2);
        let s1 = keep_priority(moves, 1);
        let s0 = keep_priority(moves, 0);
        if k == 3 {
            assert(order_spec(moves)[j] == m);
        } else if k == 2 {
            assert(order_spec(moves)[s3.len() + j] == m);
        } else if k == 1 {
            assert(order_spec(moves)[s3.len() + s2.len() + j] == m);
        } else {
            assert(order_spec(moves)[s3.len() + s2.len() + s1.len() + j] == m);
        }
    }
    if moves.len() > 0 {
        assert(moves.contains(moves[0]));
    }
}

/// Appends to `out` the elements of `moves` whose priority is `k`, in their
/// original order.
fn push_with_priority(out: &mut Vec<usize>, moves: &Vec<usize>, k: i32)
    requires
        0 <= k <= 3,
    ensures
        final(out)@ == old(out)@ + keep_priority(moves@, k as int),
{
    let ghost out0 = out@;
    let mut i: usize = 0;
    while i < moves.len()
        invariant
            i <= moves@.len(),
            0 <= k <= 3,
            out@ == out0 + keep_priority(moves@.take(i as int), k as int),
        decreases moves@.len() - i,
    {
        assert(moves@.take(i + 1).drop_last() =~= moves@.take(i as int));
        assert(moves@.take(i + 1).last() == moves@[i as int]);
        if Strategy::move_priority(moves[i]) == k {
            out.push(moves[i]);
        }
        assert(out@ =~= out0 + keep_priority(moves@.take(i + 1), k as int));
        i = i + 1;
    }
    assert(moves@.take(moves@.len() as int) =~= moves@);
}

impl Strategy {
    /// The base score of a classified position: +1 for an AI win, -1 for a
    /// human win, 0 for a draw or a position still in progress.
    pub fn evaluate_terminal_state(state: &GameState) -> (r: i32)
        ensures
            r as int == eval_state_spec(*state),
    {
        match state {
            GameState::Win(Player::AI) => 1,
            GameState::Win(Player::Human) => -1,
            GameState::Draw => 0,
            GameState::InProgress => 0,
        }
    }

    /// The positional value of a cell: centre 3, corner 2, edge 1, out of
    /// range 0.
    pub fn move_priority(position: usize) -> (r: i32)
        ensures
            r as int == priority_spec(position),
    {
        match position {
            4 => 3,
            0 | 2 | 6 | 8 => 2,
            1 | 3 | 5 | 7 => 1,
            _ => 0,
        }
    }

    /// Stably sorts the moves by descending priority, so that the search
    /// visits promising cells first; ties keep the order of the input.
    pub fn order_moves(moves: Vec<usize>) -> (r: Vec<usize>)
        ensures
            r@ == order_spec(moves@),
    {
        let mut ordered: Vec<usize> = Vec::new();
        push_with_priority(&mut ordered, &moves, 3);
        push_with_priority(&mut ordered, &moves, 2);
        push_with_priority(&mut ordered, &moves, 1);
        push_with_priority(&mut ordered, &moves, 0);
        assert(ordered@ =~= order_spec(moves@));
        ordered
    }

    /// The static fallback score of a position: its base value with no
    /// depth adjustment.
    pub fn heuristic_evaluation(board: &Board) -> (r: i32)
        ensures
            r as int == eval_state_spec(state_spec(board@)),
    {
        let state = board.game_state();
        match state {
            GameState::Win(_) | GameState::Draw => Strategy::evaluate_terminal_state(&state),
            GameState::InProgress => 0,
        }
    }
}

} // verus!
