use tic_tac_toe::player::Player;
use tic_tac_toe::rules::GameState;
use tic_tac_toe::strategy::Strategy;

#[test]
fn terminal_state_values() {
    assert_eq!(Strategy::evaluate_terminal_state(&GameState::Win(Player::AI)), 1);
    assert_eq!(Strategy::evaluate_terminal_state(&GameState::Win(Player::Human)), -1);
    assert_eq!(Strategy::evaluate_terminal_state(&GameState::Draw), 0);
    assert_eq!(Strategy::evaluate_terminal_state(&GameState::InProgress), 0);
}

#[test]
fn priority_centre_corner_edge() {
    assert_eq!(Strategy::move_priority(4), 3);
    for corner in [0, 2, 6, 8] {
        assert_eq!(Strategy::move_priority(corner), 2);
    }
    for edge in [1, 3, 5, 7] {
        assert_eq!(Strategy::move_priority(edge), 1);
    }
    assert_eq!(Strategy::move_priority(9), 0);
}

#[test]
fn order_moves_sorts_by_descending_priority() {
    let ordered = Strategy::order_moves(vec![0, 1, 2, 3, 4, 5, 6, 7, 8]);
    assert_eq!(ordered, vec![4, 0, 2, 6, 8, 1, 3, 5, 7]);
}

#[test]
fn order_moves_is_stable_on_ties() {
    // Ties keep the relative order of the input sequence.
    assert_eq!(Strategy::order_moves(vec![1, 0, 4, 3, 8]), vec![4, 0, 8, 1, 3]);
    assert_eq!(Strategy::order_moves(vec![8, 6, 2, 0]), vec![8, 6, 2, 0]);
    assert_eq!(Strategy::order_moves(vec![7, 5, 3, 1]), vec![7, 5, 3, 1]);
}

#[test]
fn order_moves_keeps_all_moves() {
    let ordered = Strategy::order_moves(vec![5, 4, 3]);
    assert_eq!(ordered.len(), 3);
    for m in [3, 4, 5] {
        assert!(ordered.contains(&m));
    }
    assert_eq!(Strategy::order_moves(vec![]), Vec::<usize>::new());
}
