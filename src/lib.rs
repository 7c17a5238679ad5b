//! The counting game: a community posts consecutive integers in one channel,
//! and a mistake resets the count and puts a time-limited penalty on the
//! participant who made it.
//!
//! The library holds the game's whole decision logic: the state record, the
//! acceptance rule for one submission, the expiry of penalties, and the
//! ranking shown on the leaderboard. Talking to the chat platform, evaluating
//! arithmetic and writing the record to disk are left to the caller.

pub mod entries;
pub mod game;
pub mod penalty;
pub mod ranking;
pub mod state;
pub mod text;

pub use game::{Outcome, RejectReason, PENALTY_DURATION_SECS};
pub use state::GameState;
pub use text::strip_backslashes;
