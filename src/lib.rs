pub mod board;
pub mod engine;
pub mod fen;
pub mod move_generation;
