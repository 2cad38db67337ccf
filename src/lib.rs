//! A chess rules engine: board model, legal-move generation, move application
//! with undo, and game-status classification, all verified.
pub mod board;
pub mod moves;
pub mod square;
pub mod game;
