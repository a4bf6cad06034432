//! Perfect-play analysis of the 3x3 noughts-and-crosses game: a bit-packed
//! position, an exhaustive alpha-beta search over it, and the reader of the
//! line protocol that drives both.
//!
//! A position is scored by one signed number. A win for the player to move
//! scores twenty less the number of moves it takes, a loss that number less
//! twenty, and a draw zero, so that of two wins the faster scores higher and
//! of two losses the slower. The best move is the first empty cell, in
//! increasing order, that keeps the score.
//!
//! The modules, from the ground up:
//!
//! - `bitstore`: the bit vector under a stored position, taken on trust;
//! - `position`, `rules`: the model of a position and the rules of the game;
//! - `state`: the stored position and its moves;
//! - `value`, `outcome`: what a position is worth and who wins it;
//! - `pruning`, `choice`: what the pruned search computes, and why that is
//!   the value and the best move;
//! - `engine`: the search itself;
//! - `parser`: the requests.

pub mod bitstore;
pub mod position;
pub mod state;
pub mod rules;
pub mod value;
pub mod pruning;
pub mod choice;
pub mod outcome;
pub mod engine;
pub mod parser;
