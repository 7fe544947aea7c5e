//! The two players of the game and their marks.

use vstd::prelude::*;

verus! {

/// One of the two sides of the game. `Human` plays the mark 'X', `AI` the
/// mark 'O'; the marks themselves matter only at the rendering boundary.
#[derive(Debug, Clone, Copy, PartialEq, Eq, Structural)]
pub enum Player {
    Human,
    AI,
}

impl Player {
    /// The other side.
    pub open spec fn opposite_spec(self) -> Player {
        match self {
            Player::Human => Player::AI,
            Player::AI => Player::Human,
        }
    }

    /// The mark drawn for this side.
    pub open spec fn symbol_spec(self) -> char {
        match self {
            Player::Human => 'X',
            Player::AI => 'O',
        }
    }

    pub fn opposite(self) -> (r: Player)
        ensures
            r == self.opposite_spec(),
    {
        match self {
            Player::Human => Player::AI,
            Player::AI => Player::Human,
        }
    }

    pub fn symbol(self) -> (r: char)
        ensures
            r == self.symbol_spec(),
    {
        match self {
            Player::Human => 'X',
            Player::AI => 'O',
        }
    }
}

} // verus!
