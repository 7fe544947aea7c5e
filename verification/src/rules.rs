//! Classification of a board position: the eight winning lines, the winner
//! scan, fullness, and the resulting game state.

use vstd::prelude::*;

use crate::player::Player;

verus! {

/// The state a board position is in: still playable, won by one side, or
/// drawn. It is always recomputed from the cells, never stored.
#[derive(Debug, Clone, PartialEq, Eq, Structural)]
pub enum GameState {
    InProgress,
    Win(Player),
    Draw,
}

/// The stateless rules of the game, as associated functions.
pub struct GameRules;

/// The cells of the `k`-th winning line: three rows, three columns and the
/// two diagonals, in that order.
pub open spec fn win_line(k: int) -> (int, int, int) {
    if k == 0 {
        (0, 1, 2)
    } else if k == 1 {
        (3, 4, 5)
    } else if k == 2 {
        (6, 7, 8)
    } else if k == 3 {
        (0, 3, 6)
    } else if k == 4 {
        (1, 4, 7)
    } else if k == 5 {
        (2, 5, 8)
    } else {
        if k == 6 {
            (0, 4, 8)
        } else {
            (2, 4, 6)
        }
    }
}

/// The player holding every cell of the `k`-th winning line, if any.
pub open spec fn line_owner(s: Seq<Option<Player>>, k: int) -> Option<Player> {
    let (a, b, c) = win_line(k);
    match (s[a], s[b], s[c]) {
        (Some(x), Some(y), Some(z)) => if x == y && y == z {
            Some(x)
        } else {
            None
        },
        _ => None,
    }
}

/// The owner of the first fully held line with index at least `k`, if any.
pub open spec fn winner_from(s: Seq<Option<Player>>, k: int) -> Option<Player>
    decreases 8 - k,
{
    if k < 0 || k >= 8 {
        None
    } else {
        match line_owner(s, k) {
            Some(p) => Some(p),
            None => winner_from(s, k + 1),
        }
    }
}

/// The winner of the position: the owner of the first fully held line.
pub open spec fn winner_spec(s: Seq<Option<Player>>) -> Option<Player> {
    winner_from(s, 0)
}

/// Every cell is occupied.
pub open spec fn full_spec(s: Seq<Option<Player>>) -> bool {
    forall|i: int| 0 <= i < 9 ==> s[i] is Some
}

/// A position within bounds whose cell is still free.
pub open spec fn valid_move_spec(s: Seq<Option<Player>>, position: int) -> bool {
    0 <= position < 9 && s[position] is None
}

/// The classification of a position: a win if some line is fully held, else
/// a draw if every cell is occupied, else still in progress.
pub open spec fn state_spec(s: Seq<Option<Player>>) -> GameState {
    match winner_spec(s) {
        Some(p) => GameState::Win(p),
        None => if full_spec(s) {
            GameState::Draw
        } else {
            GameState::InProgress
        },
    }
}

/// The classification of a board is exhaustive and exclusive: a won position
/// carries exactly its winner, a drawn position is full and has no winner,
/// and a position in progress has neither a winner nor a full grid.
pub proof fn lemma_state_classification(s: Seq<Option<Player>>)
    ensures
        state_spec(s) is InProgress || state_spec(s) is Win || state_spec(s) is Draw,
        forall|p: Player| state_spec(s) == GameState::Win(p) <==> winner_spec(s) == Some(p),
        state_spec(s) is Draw <==> winner_spec(s) is None && full_spec(s),
        state_spec(s) is InProgress <==> winner_spec(s) is None && !full_spec(s),
{
}

/// The cells of the `k`-th winning line, as run-time indices.
fn win_line_cells(k: usize) -> (r: (usize, usize, usize))
    requires
        k < 8,
    ensures
        (r.0 as int, r.1 as int, r.2 as int) == win_line(k as int),
        r.0 < 9 && r.1 < 9 && r.2 < 9,
{
    match k {
        0 => (0, 1, 2),
        1 => (3, 4, 5),
        2 => (6, 7, 8),
        3 => (0, 3, 6),
        4 => (1, 4, 7),
        5 => (2, 5, 8),
        6 => (0, 4, 8),
        _ => (2, 4, 6),
    }
}

impl GameRules {
    /// Scans the eight winning lines and returns the owner of the first line
    /// held entirely by one player, if any.
    pub fn check_winner(board: &[Option<Player>; 9]) -> (r: Option<Player>)
        ensures
            r == winner_spec(board@),
    {
        let mut k: usize = 0;
        while k < 8
            invariant
                k <= 8,
                winner_from(board@, 0) == winner_from(board@, k as int),
            decreases 8 - k,
        {
            let (a, b, c) = win_line_cells(k);
            if let (Some(x), Some(y), Some(z)) = (board[a], board[b], board[c]) {
                if x == y && y == z {
                    return Some(x);
                }
            }
            k = k + 1;
        }
        None
    }

    /// True iff every cell of the board is occupied.
    pub fn is_board_full(board: &[Option<Player>; 9]) -> (r: bool)
        ensures
            r == full_spec(board@),
    {
        let mut i: usize = 0;
        while i < 9
            invariant
                i <= 9,
                forall|j: int| 0 <= j < i ==> board@[j] is Some,
            decreases 9 - i,
        {
            if board[i].is_none() {
                return false;
            }
            i = i + 1;
        }
        true
    }

    /// Classifies the board: a win if a line is fully held, else a draw if
    /// the board is full, else in progress.
    pub fn game_state(board: &[Option<Player>; 9]) -> (r: GameState)
        ensures
            r == state_spec(board@),
    {
        if let Some(winner) = Self::check_winner(board) {
            GameState::Win(winner)
        } else if Self::is_board_full(board) {
            GameState::Draw
        } else {
            GameState::InProgress
        }
    }

    /// True iff `position` is within bounds and its cell is still free.
    pub fn is_valid_move(board: &[Option<Player>; 9], position: usize) -> (r: bool)
        ensures
            r == valid_move_spec(board@, position as int),
    {
        position < 9 && board[position].is_none()
    }
}

} // verus!
