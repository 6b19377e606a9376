//! Round and session progression for a multiplayer "tragedy of the commons"
//! game played without a central server.
//!
//! Every participant runs the same pure steps on the same records: moves are
//! aggregated into one move per player, the next round's resources are
//! computed from the previous round, and the round either advances or the
//! session ends. Storage, identity and notification belong to the host ledger
//! and are not part of this crate.

pub mod error;
pub mod game_move;
pub mod game_round;
pub mod game_session;
pub mod ids;
pub mod player_profile;
pub mod player_stats;
pub mod progress_laws;

pub use crate::error::GameError;
pub use crate::game_move::{finalize_moves, new_move, GameMove, GameMoveInput};
pub use crate::game_round::{
    calculate_round_state, can_start_new_round, try_to_close_round, GameRound, GameRoundInfo,
    RoundProgress, RoundState,
};
pub use crate::game_session::{
    end_game, new_session, others, round_zero, GameParams, GameSession, ResourceAmount, SessionState,
};
pub use crate::ids::{AgentKey, EntryRef};
pub use crate::player_profile::{player_keys, PlayerProfile};
pub use crate::player_stats::{player_stats_from_moves, PlayerStats};
