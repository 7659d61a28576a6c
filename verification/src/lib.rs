pub mod analysis;
pub mod audio;
pub mod board;
pub mod board_view;
pub mod engine;
pub mod game;
pub mod interaction;
pub mod moves;
pub mod pgn;
pub mod rules;
pub mod session;
pub mod settings;
pub mod text;
pub mod uci;
