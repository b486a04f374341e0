pub mod board;
pub mod piece;
