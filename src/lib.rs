//! A chess rule engine: a board model, pluggable setup, turn, movement and constraint
//! rules, and the computation of every legal move of a piece, with castling and
//! self-check prevention.
use vstd::prelude::*;

pub mod attack;
pub mod board;
pub mod castle;
pub mod laws;
pub mod movegen;
pub mod plugin;
pub mod rules;
pub mod setup;

pub use board::{
    GameData, Move, MoveType, Piece, PiecePlacements, GD_NO_BLACK_KS_CASTLE,
    GD_NO_BLACK_QS_CASTLE, GD_NO_CASTLE, GD_NO_WHITE_KS_CASTLE, GD_NO_WHITE_QS_CASTLE,
};
pub use plugin::plugin_request;
pub use rules::{ConstraintRule, MovementKind, MovementRule, Rules, TurnRule};
pub use setup::SetupRule;

verus! {

} // verus!
