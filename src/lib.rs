//! Pawn fight: a board game for two players whose pieces move one cell
//! orthogonally, capture one cell diagonally, and may only act when their
//! readiness timer says so.
pub mod board;
pub mod cli;
pub mod cpu_player;
pub mod game;
pub mod human_player;
pub mod screen;
pub mod token;

pub use crate::board::{Board, BoardError, BoardState, Piece, Pos};
pub use crate::cli::{parse_args, CommandLineArgs};
pub use crate::cpu_player::CpuPlayer;
pub use crate::game::{Game, GameState};
pub use crate::human_player::{HumanPlayer, InputTypes, Key, KeyboardStates, ResolverState};
pub use crate::screen::cell_pos_to_canvas_pos;
pub use crate::token::{Token, TokenStates};
