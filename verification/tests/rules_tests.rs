use tic_tac_toe::player::Player;
use tic_tac_toe::rules::{GameRules, GameState};

/// Builds nine cells from a nine-character picture: 'H' for the human,
/// 'A' for the AI, anything else for a free cell.
fn cells(picture: &str) -> [Option<Player>; 9] {
    let mut cells = [None; 9];
    for (i, c) in picture.chars().enumerate() {
        cells[i] = match c {
            'H' => Some(Player::Human),
            'A' => Some(Player::AI),
            _ => None,
        };
    }
    cells
}

#[test]
fn winner_on_each_row() {
    assert_eq!(GameRules::check_winner(&cells("HHH......")), Some(Player::Human));
    assert_eq!(GameRules::check_winner(&cells("...AAA...")), Some(Player::AI));
    assert_eq!(GameRules::check_winner(&cells("......HHH")), Some(Player::Human));
}

#[test]
fn winner_on_each_column() {
    assert_eq!(GameRules::check_winner(&cells("A..A..A..")), Some(Player::AI));
    assert_eq!(GameRules::check_winner(&cells(".H..H..H.")), Some(Player::Human));
    assert_eq!(GameRules::check_winner(&cells("..A..A..A")), Some(Player::AI));
}

#[test]
fn winner_on_each_diagonal() {
    assert_eq!(GameRules::check_winner(&cells("H...H...H")), Some(Player::Human));
    assert_eq!(GameRules::check_winner(&cells("..A.A.A..")), Some(Player::AI));
}

#[test]
fn no_winner_on_mixed_lines() {
    assert_eq!(GameRules::check_winner(&cells("HAH......")), None);
    assert_eq!(GameRules::check_winner(&cells(".........")), None);
    // A full board with no three in a row.
    assert_eq!(GameRules::check_winner(&cells("HAHHAAAHH")), None);
}

#[test]
fn board_fullness() {
    assert!(!GameRules::is_board_full(&cells(".........")));
    assert!(!GameRules::is_board_full(&cells("HAHHAAAH.")));
    assert!(GameRules::is_board_full(&cells("HAHHAAAHH")));
}

#[test]
fn game_state_classification() {
    // A position still open is in progress, even with marks on the board.
    assert_eq!(GameRules::game_state(&cells("HA.......")), GameState::InProgress);
    // A fully held line wins, whether or not the board is full.
    assert_eq!(GameRules::game_state(&cells("AAAHH....")), GameState::Win(Player::AI));
    assert_eq!(GameRules::game_state(&cells("HAHHAAHHA")), GameState::Win(Player::Human));
    // A full board with no winner is a draw, never both.
    assert_eq!(GameRules::game_state(&cells("HAHHAAAHH")), GameState::Draw);
}

#[test]
fn valid_move_checks_range_and_occupancy() {
    let board = cells("H...A....");
    assert!(!GameRules::is_valid_move(&board, 0));
    assert!(!GameRules::is_valid_move(&board, 4));
    assert!(GameRules::is_valid_move(&board, 1));
    assert!(GameRules::is_valid_move(&board, 8));
    assert!(!GameRules::is_valid_move(&board, 9));
}
