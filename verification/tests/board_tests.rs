use tic_tac_toe::board::{Board, BoardError};
use tic_tac_toe::player::Player;
use tic_tac_toe::rules::GameState;

#[test]
fn new_board_is_empty() {
    let board = Board::new();
    assert!(board.is_empty());
    for i in 0..9 {
        assert_eq!(board.get_cell(i), None);
    }
    assert_eq!(board.available_moves(), vec![0, 1, 2, 3, 4, 5, 6, 7, 8]);
    assert_eq!(board.game_state(), GameState::InProgress);
}

#[test]
fn make_move_sets_cell() {
    let mut board = Board::new();
    assert_eq!(board.make_move(4, Player::AI), Ok(()));
    assert_eq!(board.get_cell(4), Some(Player::AI));
    assert!(!board.is_empty());
    assert_eq!(board.available_moves(), vec![0, 1, 2, 3, 5, 6, 7, 8]);
}

#[test]
fn make_move_rejects_occupied_cell() {
    let mut board = Board::new();
    assert_eq!(board.make_move(4, Player::Human), Ok(()));
    assert_eq!(board.make_move(4, Player::AI), Err(BoardError::InvalidMove(4)));
    assert_eq!(board.get_cell(4), Some(Player::Human));
}

#[test]
fn make_move_rejects_out_of_range() {
    let mut board = Board::new();
    assert_eq!(board.make_move(9, Player::Human), Err(BoardError::InvalidMove(9)));
    assert_eq!(board.make_move(100, Player::AI), Err(BoardError::InvalidMove(100)));
    assert!(board.is_empty());
}

#[test]
fn get_cell_out_of_range_is_none() {
    let mut board = Board::new();
    board.make_move(8, Player::AI).unwrap();
    assert_eq!(board.get_cell(9), None);
    assert_eq!(board.get_cell(usize::MAX), None);
}

#[test]
fn from_state_keeps_cells() {
    let cells = [
        Some(Player::Human),
        None,
        None,
        None,
        Some(Player::AI),
        None,
        None,
        None,
        Some(Player::Human),
    ];
    let board = Board::from_state(cells);
    assert_eq!(board.get_cell(0), Some(Player::Human));
    assert_eq!(board.get_cell(4), Some(Player::AI));
    assert_eq!(board.get_cell(8), Some(Player::Human));
    assert_eq!(board.available_moves(), vec![1, 2, 3, 5, 6, 7]);
}

#[test]
fn clone_for_simulation_is_independent() {
    let mut board = Board::new();
    board.make_move(0, Player::Human).unwrap();
    let mut copy = board.clone_for_simulation();
    copy.make_move(1, Player::AI).unwrap();
    assert_eq!(copy.get_cell(1), Some(Player::AI));
    assert_eq!(board.get_cell(1), None);
    assert_eq!(board.get_cell(0), Some(Player::Human));
}

#[test]
fn player_opposite_and_symbol() {
    assert_eq!(Player::Human.opposite(), Player::AI);
    assert_eq!(Player::AI.opposite(), Player::Human);
    assert_eq!(Player::Human.symbol(), 'X');
    assert_eq!(Player::AI.symbol(), 'O');
}
