//! A verified Tic-Tac-Toe engine: a fixed 3x3 board, the rules that classify a
//! position as in progress, won or drawn, a move-ordering heuristic, and a
//! minimax search with alpha-beta pruning whose chosen move is proved equal to
//! the move plain minimax (no pruning) would choose.

pub mod board;
pub mod minimax;
pub mod player;
pub mod rules;
pub mod strategy;
