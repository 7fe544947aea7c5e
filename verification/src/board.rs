//! The 3x3 grid: nine cells, each free or held by a player, with move
//! application, legal-move enumeration and bounds-checked reads.

use vstd::prelude::*;

use crate::player::Player;
use crate::rules::{GameRules, GameState, state_spec, valid_move_spec};

verus! {

broadcast use vstd::array::group_array_axioms;

/// The error a rejected move reports: the position was out of range or its
/// cell was already occupied.
#[derive(Debug, PartialEq, Eq, Structural)]
pub enum BoardError {
    InvalidMove(usize),
}

/// A fixed 3x3 grid in row-major order (index = row * 3 + column). A value
/// type: simulated moves during search run on independent copies, never on
/// the original.
#[derive(Debug, Clone, Copy)]
pub struct Board {
    cells: [Option<Player>; 9],
}

impl View for Board {
    type V = Seq<Option<Player>>;

    closed spec fn view(&self) -> Seq<Option<Player>> {
        self.cells@
    }
}

/// A board always views as exactly its nine cells.
pub broadcast proof fn lemma_board_view_len(b: Board)
    ensures
        (#[trigger] b@).len() == 9,
{
}

/// No cell of the board is occupied.
pub open spec fn board_empty_spec(s: Seq<Option<Player>>) -> bool {
    forall|i: int| 0 <= i < 9 ==> s[i] is None
}

/// The free positions among the first `n` cells, in ascending order.
pub open spec fn moves_below(s: Seq<Option<Player>>, n: int) -> Seq<usize>
    decreases n,
{
    if n <= 0 {
        Seq::empty()
    } else {
        moves_below(s, n - 1) + if s[n - 1] is None {
            seq![(n - 1) as usize]
        } else {
            Seq::empty()
        }
    }
}

/// All free positions of the board, in ascending order.
pub open spec fn legal_moves_spec(s: Seq<Option<Player>>) -> Seq<usize> {
    moves_below(s, 9)
}

/// What `moves_below` enumerates: exactly the free positions below `n`,
/// each once, in strictly ascending order.
pub proof fn lemma_moves_below(s: Seq<Option<Player>>, n: int)
    requires
        0 <= n <= 9,
    ensures
        forall|j: int| 0 <= j < moves_below(s, n).len()
            ==> (#[trigger] moves_below(s, n)[j]) < n && s[moves_below(s, n)[j] as int] is None,
        forall|m: usize| m < n && s[m as int] is None ==> #[trigger] moves_below(s, n).contains(m),
        forall|j1: int, j2: int| 0 <= j1 < j2 < moves_below(s, n).len()
            ==> #[trigger] moves_below(s, n)[j1] < #[trigger] moves_below(s, n)[j2],
        moves_below(s, n).len() <= n,
    decreases n,
{
    if n > 0 {
        lemma_moves_below(s, n - 1);
        assert forall|m: usize| m < n && s[m as int] is None
            implies #[trigger] moves_below(s, n).contains(m) by {
            if m < n - 1 {
                assert(moves_below(s, n - 1).contains(m));
                let j: int = choose|j: int|
                    0 <= j < moves_below(s, n - 1).len() && #[trigger] moves_below(s, n - 1)[j]
                        == m;
                assert(moves_below(s, n)[j] == m);
            } else {
                assert(moves_below(s, n)[moves_below(s, n).len() - 1] == m);
            }
        }
    }
}

impl Board {
    /// A freshly created board, with every cell free.
    pub fn new() -> (r: Board)
        ensures
            board_empty_spec(r@),
    {
        Board { cells: [None, None, None, None, None, None, None, None, None] }
    }

    /// A board holding exactly the given cells.
    pub fn from_state(cells: [Option<Player>; 9]) -> (r: Board)
        ensures
            r@ == cells@,
    {
        Board { cells }
    }

    /// Places `player`'s mark on `position`. Fails, leaving the board
    /// untouched, iff the position is out of range or already occupied.
    pub fn make_move(&mut self, position: usize, player: Player) -> (r: Result<(), BoardError>)
        ensures
            valid_move_spec(old(self)@, position as int) ==> r is Ok
                && final(self)@ == old(self)@.update(position as int, Some(player)),
            !valid_move_spec(old(self)@, position as int) ==> r == Err::<(), BoardError>(
                BoardError::InvalidMove(position),
            ) && final(self)@ == old(self)@,
    {
        if !GameRules::is_valid_move(&self.cells, position) {
            return Err(BoardError::InvalidMove(position));
        }
        self.cells[position] = Some(player);
        Ok(())
    }

    /// The classification of the current position.
    pub fn game_state(&self) -> (r: GameState)
        ensures
            r == state_spec(self@),
    {
        GameRules::game_state(&self.cells)
    }

    /// All free positions, in ascending order.
    pub fn available_moves(&self) -> (r: Vec<usize>)
        ensures
            r@ == legal_moves_spec(self@),
    {
        let mut moves: Vec<usize> = Vec::new();
        let mut i: usize = 0;
        while i < 9
            invariant
                i <= 9,
                moves@ == moves_below(self@, i as int),
            decreases 9 - i,
        {
            if self.cells[i].is_none() {
                moves.push(i);
            }
            assert(moves@ =~= moves_below(self@, i + 1));
            i = i + 1;
        }
        moves
    }

    /// Bounds-checked read: the occupant of `position`, or `None` when the
    /// cell is free or the position is out of range.
    pub fn get_cell(&self, position: usize) -> (r: Option<Player>)
        ensures
            position < 9 ==> r == self@[position as int],
            position >= 9 ==> r is None,
    {
        if position < 9 {
            self.cells[position]
        } else {
            None
        }
    }

    /// True iff no cell is occupied.
    pub fn is_empty(&self) -> (r: bool)
        ensures
            r == board_empty_spec(self@),
    {
        let mut i: usize = 0;
        while i < 9
            invariant
                i <= 9,
                forall|j: int| 0 <= j < i ==> self@[j] is None,
            decreases 9 - i,
        {
            if self.cells[i].is_some() {
                return false;
            }
            i = i + 1;
        }
        true
    }

    /// An independent copy for the search to simulate moves on; mutating it
    /// leaves the original untouched.
    pub fn clone_for_simulation(&self) -> (r: Board)
        ensures
            r@ == self@,
    {
        self.clone()
    }
}

impl Default for Board {
    /// The same board `new` creates: all nine cells free.
    fn default() -> (r: Board)
        ensures
            board_empty_spec(r@),
    {
        Board::new()
    }
}

} // verus!
