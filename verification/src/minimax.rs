//! The search engine: plain minimax as the mathematical definition of a
//! position's value, and an alpha-beta search proved to agree with it.
//!
//! `minimax_spec` is the pruning-free definition: the depth-adjusted value of
//! a terminal position, or the best child value over the legal moves in
//! heuristic order. The executable `MiniMax::minimax` prunes with alpha-beta
//! bounds, and its contract states the classical window guarantee: a result
//! inside the window equals `minimax_spec` exactly, a result at or outside a
//! bound is a bound on it. Called with the full window, pruning therefore
//! returns exactly the plain minimax value, and `get_best_move` returns
//! exactly the move plain minimax would pick.

use vstd::prelude::*;

use crate::board::{Board, board_empty_spec, legal_moves_spec, lemma_moves_below};
use crate::player::Player;
use crate::rules::{GameState, full_spec, state_spec, valid_move_spec};
use crate::strategy::{Strategy, eval_state_spec, lemma_order_spec_contains, order_spec};

verus! {

broadcast use crate::board::lemma_board_view_len;

/// The alpha-beta game-tree search. `debug` only selects whether callers may
/// report diagnostics; it never affects the chosen move. `nodes_evaluated`
/// counts visited nodes, saturating instead of overflowing.
pub struct MiniMax {
    debug: bool,
    nodes_evaluated: usize,
}

/// The side that places a mark when the node maximizes (`true`: the AI) or
/// minimizes (`false`: the human).
pub open spec fn mover(maximizing: bool) -> Player {
    if maximizing {
        Player::AI
    } else {
        Player::Human
    }
}

/// The board after `player` marks `position`.
pub open spec fn play_at(s: Seq<Option<Player>>, position: usize, player: Player) -> Seq<
    Option<Player>,
> {
    s.update(position as int, Some(player))
}

/// The legal moves in the order the search visits them: stably sorted by
/// descending positional priority.
pub open spec fn ordered_moves_spec(s: Seq<Option<Player>>) -> Seq<usize> {
    order_spec(legal_moves_spec(s))
}

/// The depth-adjusted value of a terminal position: wins are better the
/// earlier they come, losses better the later they come.
pub open spec fn terminal_score_spec(s: Seq<Option<Player>>, depth: int) -> int {
    let base = eval_state_spec(state_spec(s));
    if base > 0 {
        base + (10 - depth)
    } else if base < 0 {
        base - (10 - depth)
    } else {
        base
    }
}

/// The plain minimax value of the position, with no pruning: the
/// depth-adjusted terminal value, the static evaluation past the defensive
/// depth bound, or the best child value over the ordered legal moves.
pub open spec fn minimax_spec(s: Seq<Option<Player>>, depth: int, maximizing: bool) -> int
    decreases 10 - depth, 0int, 0int,
{
    if !(state_spec(s) is InProgress) {
        terminal_score_spec(s, depth)
    } else if depth > 9 {
        eval_state_spec(state_spec(s))
    } else {
        best_of(s, depth + 1, maximizing, ordered_moves_spec(s))
    }
}

/// The value of the child reached by `position` from a node at the parent's
/// depth minus one: the mark of the side to move, scored for the other side.
pub open spec fn child_score(
    s: Seq<Option<Player>>,
    cdepth: int,
    maximizing: bool,
    position: usize,
) -> int
    decreases 10 - cdepth, 0int, 1int,
{
    minimax_spec(play_at(s, position, mover(maximizing)), cdepth, !maximizing)
}

/// The best child value over `moves` for a node that maximizes
/// (`maximizing`) or minimizes, its children sitting at depth `cdepth`. On
/// an empty move list (never reached from `minimax_spec`) it is 0.
pub open spec fn best_of(
    s: Seq<Option<Player>>,
    cdepth: int,
    maximizing: bool,
    moves: Seq<usize>,
) -> int
    decreases 10 - cdepth, moves.len(), 2int,
{
    if moves.len() == 0 {
        0
    } else {
        let first = child_score(s, cdepth, maximizing, moves[0]);
        if moves.len() == 1 {
            first
        } else {
            let rest = best_of(s, cdepth, maximizing, moves.drop_first());
            if maximizing {
                if first >= rest {
                    first
                } else {
                    rest
                }
            } else {
                if first <= rest {
                    first
                } else {
                    rest
                }
            }
        }
    }
}

/// A maximizing node's value is at least each child's value; a minimizing
/// node's value is at most each child's value.
pub proof fn lemma_best_of_bound(
    s: Seq<Option<Player>>,
    cdepth: int,
    maximizing: bool,
    moves: Seq<usize>,
    j: int,
)
    requires
        0 <= j < moves.len(),
    ensures
        maximizing ==> best_of(s, cdepth, maximizing, moves) >= child_score(
            s,
            cdepth,
            maximizing,
            moves[j],
        ),
        !maximizing ==> best_of(s, cdepth, maximizing, moves) <= child_score(
            s,
            cdepth,
            maximizing,
            moves[j],
        ),
    decreases moves.len(),
{
    if j > 0 {
        lemma_best_of_bound(s, cdepth, maximizing, moves.drop_first(), j - 1);
        assert(moves.drop_first()[j - 1] == moves[j]);
    }
}

/// Some child attains the node's value.
pub proof fn lemma_best_of_witness(
    s: Seq<Option<Player>>,
    cdepth: int,
    maximizing: bool,
    moves: Seq<usize>,
) -> (j: int)
    requires
        moves.len() > 0,
    ensures
        0 <= j < moves.len(),
        best_of(s, cdepth, maximizing, moves) == child_score(s, cdepth, maximizing, moves[j]),
    decreases moves.len(),
{
    if moves.len() == 1 {
        0
    } else {
        let first = child_score(s, cdepth, maximizing, moves[0]);
        let rest = best_of(s, cdepth, maximizing, moves.drop_first());
        if (maximizing && first >= rest) || (!maximizing && first <= rest) {
            0
        } else {
            let jj: int = lemma_best_of_witness(s, cdepth, maximizing, moves.drop_first());
            assert(moves.drop_first()[jj] == moves[jj + 1]);
            jj + 1
        }
    }
}

/// The ordered move list holds exactly the legal moves: each entry is a free
/// cell in range, and on a position still open there is at least one.
pub proof fn lemma_ordered_moves(s: Seq<Option<Player>>)
    requires
        s.len() == 9,
    ensures
        forall|j: int| 0 <= j < ordered_moves_spec(s).len() ==> valid_move_spec(
            s,
            (#[trigger] ordered_moves_spec(s)[j]) as int,
        ),
        forall|m: usize| #[trigger] legal_moves_spec(s).contains(m) <==> ordered_moves_spec(
            s,
        ).contains(m),
        !full_spec(s) ==> ordered_moves_spec(s).len() > 0,
{
    lemma_moves_below(s, 9);
    lemma_order_spec_contains(legal_moves_spec(s));
    assert forall|j: int| 0 <= j < ordered_moves_spec(s).len() implies valid_move_spec(
        s,
        (#[trigger] ordered_moves_spec(s)[j]) as int,
    ) by {
        let m = ordered_moves_spec(s)[j];
        assert(ordered_moves_spec(s).contains(m));
        assert(legal_moves_spec(s).contains(m));
        let i: int = choose|i: int|
            0 <= i < legal_moves_spec(s).len() && #[trigger] legal_moves_spec(s)[i] == m;
    }
    if !full_spec(s) {
        let i: int = choose|i: int| 0 <= i < 9 && !(s[i] is Some);
        assert(legal_moves_spec(s).contains(i as usize));
        assert(ordered_moves_spec(s).contains(i as usize));
    }
}

/// One step of the top-level candidate scan: keep the running best move and
/// score, replacing them whenever a later candidate scores strictly higher.
pub open spec fn run_pick(
    s: Seq<Option<Player>>,
    moves: Seq<usize>,
    best_move: usize,
    best_score: int,
) -> (usize, int)
    decreases moves.len(),
{
    if moves.len() == 0 {
        (best_move, best_score)
    } else {
        let sc = child_score(s, 0, true, moves[0]);
        if sc > best_score {
            run_pick(s, moves.drop_first(), moves[0], sc)
        } else {
            run_pick(s, moves.drop_first(), best_move, best_score)
        }
    }
}

/// The move the search returns: the centre on an empty board, the single
/// free cell when only one remains, and otherwise the first candidate in
/// heuristic order whose plain minimax value is strictly greatest.
pub open spec fn best_move_spec(s: Seq<Option<Player>>) -> usize {
    if board_empty_spec(s) {
        4
    } else if legal_moves_spec(s).len() == 1 {
        legal_moves_spec(s)[0]
    } else {
        run_pick(s, ordered_moves_spec(s), legal_moves_spec(s)[0], i32::MIN as int).0
    }
}

impl MiniMax {
    /// Whether callers asked for diagnostic output; never affects the move.
    pub closed spec fn debug_mode(&self) -> bool {
        self.debug
    }

    /// How many nodes the last searches visited (saturating).
    pub closed spec fn nodes(&self) -> nat {
        self.nodes_evaluated as nat
    }

    pub fn new(debug: bool) -> (r: MiniMax)
        ensures
            r.debug_mode() == debug,
            r.nodes() == 0,
    {
        MiniMax { debug, nodes_evaluated: 0 }
    }

    /// Counts one visited node, saturating at the counter's maximum.
    fn count_node(&mut self)
        ensures
            final(self).debug_mode() == old(self).debug_mode(),
            final(self).nodes() >= old(self).nodes(),
    {
        if self.nodes_evaluated < usize::MAX {
            self.nodes_evaluated = self.nodes_evaluated + 1;
        }
    }

    /// Alpha-beta search. The window guarantee: a result strictly inside
    /// `(alpha, beta)` equals the plain minimax value; a result at or below
    /// `alpha` is an upper bound on it; one at or above `beta` a lower
    /// bound. Pruning can therefore never change the value seen through the
    /// window, only the work done.
    pub fn minimax(
        &mut self,
        board: &Board,
        depth: usize,
        is_maximizing: bool,
        alpha: i32,
        beta: i32,
    ) -> (r: i32)
        requires
            depth <= 10,
            alpha < beta,
        ensures
            -11 <= r <= 11,
            r < beta ==> minimax_spec(board@, depth as int, is_maximizing) <= r as int,
            r > alpha ==> minimax_spec(board@, depth as int, is_maximizing) >= r as int,
            final(self).debug_mode() == old(self).debug_mode(),
            final(self).nodes() >= old(self).nodes(),
        decreases 10 - depth,
    {
        self.count_node();

        let state = board.game_state();
        match state {
            GameState::Win(_) | GameState::Draw => {
                let base_score = Strategy::evaluate_terminal_state(&state);
                return if base_score > 0 {
                    base_score + (10 - depth as i32)
                } else if base_score < 0 {
                    base_score - (10 - depth as i32)
                } else {
                    base_score
                };
            },
            GameState::InProgress => {},
        }

        if depth > 9 {
            return Strategy::heuristic_evaluation(board);
        }

        let available_moves = board.available_moves();
        let ordered_moves = Strategy::order_moves(available_moves);
        let ghost s = board@;
        let ghost d: int = depth as int;
        let ghost debug0 = self.debug_mode();
        let ghost nodes0: nat = self.nodes();
        proof {
            lemma_ordered_moves(s);
        }

        if is_maximizing {
            let mut max_score: i32 = i32::MIN;
            let mut cur_alpha: i32 = alpha;
            let mut j: usize = 0;
            let ghost mut wit: int = 0;
            while j < ordered_moves.len() && cur_alpha < beta
                invariant
                    depth <= 9,
                    s == board@,
                    d == depth as int,
                    alpha < beta,
                    ordered_moves@ == ordered_moves_spec(s),
                    ordered_moves@.len() > 0,
                    forall|jj: int| 0 <= jj < ordered_moves@.len() ==> valid_move_spec(
                        s,
                        (#[trigger] ordered_moves@[jj]) as int,
                    ),
                    j <= ordered_moves@.len(),
                    cur_alpha as int == if max_score > alpha {
                        max_score as int
                    } else {
                        alpha as int
                    },
                    j == 0 ==> max_score == i32::MIN,
                    j > 0 ==> -11 <= max_score <= 11,
                    max_score < beta ==> forall|jj: int| 0 <= jj < j ==> child_score(
                        s,
                        d + 1,
                        true,
                        #[trigger] ordered_moves@[jj],
                    ) <= max_score as int,
                    max_score > alpha ==> 0 <= wit < j && child_score(
                        s,
                        d + 1,
                        true,
                        ordered_moves@[wit],
                    ) >= max_score as int,
                    self.debug_mode() == debug0,
                    self.nodes() >= nodes0,
                decreases ordered_moves@.len() - j,
            {
                let move_pos = ordered_moves[j];
                let mut board_copy = board.clone_for_simulation();
                board_copy.make_move(move_pos, Player::AI).unwrap();

                let score = self.minimax(&board_copy, depth + 1, false, cur_alpha, beta);
                proof {
                    if score > max_score {
                        wit = j as int;
                    }
                }
                if score > max_score {
                    max_score = score;
                }
                if score > cur_alpha {
                    cur_alpha = score;
                }
                j = j + 1;
            }

            proof {
                assert(j > 0);
                if cur_alpha >= beta {
                    assert(max_score as int >= beta as int);
                    lemma_best_of_bound(s, d + 1, true, ordered_moves@, wit);
                } else {
                    if max_score < beta {
                        let k: int = lemma_best_of_witness(s, d + 1, true, ordered_moves@);
                    }
                    if max_score > alpha {
                        lemma_best_of_bound(s, d + 1, true, ordered_moves@, wit);
                    }
                }
            }
            max_score
        } else {
            let mut min_score: i32 = i32::MAX;
            let mut cur_beta: i32 = beta;
            let mut j: usize = 0;
            let ghost mut wit: int = 0;
            while j < ordered_moves.len() && alpha < cur_beta
                invariant
                    depth <= 9,
                    s == board@,
                    d == depth as int,
                    alpha < beta,
                    ordered_moves@ == ordered_moves_spec(s),
                    ordered_moves@.len() > 0,
                    forall|jj: int| 0 <= jj < ordered_moves@.len() ==> valid_move_spec(
                        s,
                        (#[trigger] ordered_moves@[jj]) as int,
                    ),
                    j <= ordered_moves@.len(),
                    cur_beta as int == if min_score < beta {
                        min_score as int
                    } else {
                        beta as int
                    },
                    j == 0 ==> min_score == i32::MAX,
                    j > 0 ==> -11 <= min_score <= 11,
                    min_score > alpha ==> forall|jj: int| 0 <= jj < j ==> child_score(
                        s,
                        d + 1,
                        false,
                        #[trigger] ordered_moves@[jj],
                    ) >= min_score as int,
                    min_score < beta ==> 0 <= wit < j && child_score(
                        s,
                        d + 1,
                        false,
                        ordered_moves@[wit],
                    ) <= min_score as int,
                    self.debug_mode() == debug0,
                    self.nodes() >= nodes0,
                decreases ordered_moves@.len() - j,
            {
                let move_pos = ordered_moves[j];
                let mut board_copy = board.clone_for_simulation();
                board_copy.make_move(move_pos, Player::Human).unwrap();

                let score = self.minimax(&board_copy, depth + 1, true, alpha, cur_beta);
                proof {
                    if score < min_score {
                        wit = j as int;
                    }
                }
                if score < min_score {
                    min_score = score;
                }
                if score < cur_beta {
                    cur_beta = score;
                }
                j = j + 1;
            }

            proof {
                assert(j > 0);
                if alpha >= cur_beta {
                    assert(min_score as int <= alpha as int);
                    lemma_best_of_bound(s, d + 1, false, ordered_moves@, wit);
                } else {
                    if min_score > alpha {
                        let k: int = lemma_best_of_witness(s, d + 1, false, ordered_moves@);
                    }
                    if min_score < beta {
                        lemma_best_of_bound(s, d + 1, false, ordered_moves@, wit);
                    }
                }
            }
            min_score
        }
    }

    /// The engine's move for the AI on a position with at least one free
    /// cell: the centre on an empty board, the single free cell when only
    /// one remains, and otherwise the candidate in heuristic order with the
    /// strictly greatest plain minimax value — provably the best legal move.
    pub fn get_best_move(&mut self, board: &Board) -> (r: usize)
        requires
            legal_moves_spec(board@).len() > 0,
        ensures
            r == best_move_spec(board@),
            valid_move_spec(board@, r as int),
            board_empty_spec(board@) ==> r == 4,
            legal_moves_spec(board@).len() == 1 ==> r == legal_moves_spec(board@)[0],
            !board_empty_spec(board@) ==> forall|m: usize|
                #[trigger] legal_moves_spec(board@).contains(m) ==> child_score(board@, 0, true, r)
                    >= child_score(board@, 0, true, m),
            final(self).debug_mode() == old(self).debug_mode(),
    {
        self.nodes_evaluated = 0;
        let ghost s = board@;
        proof {
            lemma_ordered_moves(s);
            lemma_moves_below(s, 9);
        }

        if board.is_empty() {
            proof {
                // An empty board has at least two legal moves, so the
                // single-remaining-move clause cannot apply here.
                assert(legal_moves_spec(s).contains(0usize));
                assert(legal_moves_spec(s).contains(1usize));
                let j0: int = choose|j: int|
                    0 <= j < legal_moves_spec(s).len() && #[trigger] legal_moves_spec(s)[j]
                        == 0usize;
                let j1: int = choose|j: int|
                    0 <= j < legal_moves_spec(s).len() && #[trigger] legal_moves_spec(s)[j]
                        == 1usize;
                assert(j0 != j1);
            }
            return 4;
        }

        let available_moves = board.available_moves();
        if available_moves.len() == 1 {
            return available_moves[0];
        }

        let mut best_move: usize = available_moves[0];
        let mut best_score: i32 = i32::MIN;
        let ordered_moves = Strategy::order_moves(available_moves);
        let ghost debug0 = self.debug_mode();
        proof {
            assert(ordered_moves@.skip(0) =~= ordered_moves@);
        }

        let mut j: usize = 0;
        while j < ordered_moves.len()
            invariant
                s == board@,
                s.len() == 9,
                ordered_moves@ == ordered_moves_spec(s),
                legal_moves_spec(s).len() > 1,
                forall|jj: int| 0 <= jj < ordered_moves@.len() ==> valid_move_spec(
                    s,
                    (#[trigger] ordered_moves@[jj]) as int,
                ),
                j <= ordered_moves@.len(),
                run_pick(s, ordered_moves@.skip(j as int), best_move, best_score as int)
                    == run_pick(
                    s,
                    ordered_moves_spec(s),
                    legal_moves_spec(s)[0],
                    i32::MIN as int,
                ),
                j == 0 ==> best_move == legal_moves_spec(s)[0] && best_score == i32::MIN,
                j > 0 ==> -11 <= best_score <= 11 && child_score(s, 0, true, best_move)
                    == best_score as int && ordered_moves@.contains(best_move),
                forall|jj: int| 0 <= jj < j ==> child_score(
                    s,
                    0,
                    true,
                    #[trigger] ordered_moves@[jj],
                ) <= best_score as int,
                self.debug_mode() == debug0,
            decreases ordered_moves@.len() - j,
        {
            let move_pos = ordered_moves[j];
            let mut board_copy = board.clone_for_simulation();
            board_copy.make_move(move_pos, Player::AI).unwrap();

            let score = self.minimax(&board_copy, 0, false, i32::MIN, i32::MAX);
            proof {
                assert(child_score(s, 0, true, move_pos) == score as int);
                assert(ordered_moves@.skip(j as int).drop_first() =~= ordered_moves@.skip(
                    j as int + 1,
                ));
                assert(ordered_moves@.skip(j as int)[0] == ordered_moves@[j as int]);
            }
            if score > best_score {
                best_score = score;
                best_move = move_pos;
            }
            j = j + 1;
        }

        proof {
            assert(ordered_moves@.skip(j as int) =~= Seq::<usize>::empty());
            assert(best_move == best_move_spec(s));
            assert(ordered_moves@.contains(best_move));
            assert forall|m: usize| #[trigger] legal_moves_spec(s).contains(m) implies child_score(
                s,
                0,
                true,
                best_move,
            ) >= child_score(s, 0, true, m) by {
                assert(ordered_moves_spec(s).contains(m));
                let jj: int = choose|jj: int|
                    0 <= jj < ordered_moves@.len() && #[trigger] ordered_moves@[jj] == m;
            }
            // An index for the chosen move, so its validity follows from
            // the per-entry validity of the ordered list.
            let iw: int = choose|jj: int|
                0 <= jj < ordered_moves@.len() && #[trigger] ordered_moves@[jj] == best_move;
            assert(valid_move_spec(s, best_move as int));
        }
        best_move
    }
}

} // verus!
