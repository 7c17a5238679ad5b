//! The game's persistent record.
use vstd::prelude::*;
use crate::entries::{assoc_map, has_unique_keys, keys_unique};

verus! {

/// The whole state of the game, read and written as one unit.
///
/// `leaderboard` and `penalty_expirations` are association lists keyed by user
/// id: the first holds each participant's number of successful counts, the
/// second the epoch second at which each active penalty ends.
#[derive(Clone, Debug, PartialEq, Eq)]
pub struct GameState {
    pub last_number: i64,
    pub last_contributor: Option<u64>,
    pub high_score: i64,
    pub leaderboard: Vec<(u64, u64)>,
    pub penalty_expirations: Vec<(u64, u64)>,
}

impl GameState {
    /// The count is never negative, the high score never below it, and each
    /// user has at most one entry in each table.
    pub open spec fn wf(&self) -> bool {
        &&& 0 <= self.last_number <= self.high_score
        &&& keys_unique(self.leaderboard@)
        &&& keys_unique(self.penalty_expirations@)
    }

    /// Successful counts per participant.
    pub open spec fn leaderboard_map(&self) -> Map<u64, u64> {
        assoc_map(self.leaderboard@)
    }

    /// Expiry time of each active penalty.
    pub open spec fn penalty_map(&self) -> Map<u64, u64> {
        assoc_map(self.penalty_expirations@)
    }

    /// The state of a game that has never been played.
    pub open spec fn is_fresh(&self) -> bool {
        &&& self.last_number == 0
        &&& self.last_contributor is None
        &&& self.high_score == 0
        &&& self.leaderboard@.len() == 0
        &&& self.penalty_expirations@.len() == 0
    }

    /// The empty state a game starts from.
    pub fn new() -> (r: GameState)
        ensures
            r.wf(),
            r.is_fresh(),
            r.leaderboard_map() == Map::<u64, u64>::empty(),
            r.penalty_map() == Map::<u64, u64>::empty(),
    {
        GameState {
            last_number: 0,
            last_contributor: None,
            high_score: 0,
            leaderboard: Vec::new(),
            penalty_expirations: Vec::new(),
        }
    }

    /// Builds a state from its fields, as read back from storage; `None` where
    /// they do not make a well-formed state, which a reader treats like a
    /// corrupt record.
    pub fn from_parts(
        last_number: i64,
        last_contributor: Option<u64>,
        high_score: i64,
        leaderboard: Vec<(u64, u64)>,
        penalty_expirations: Vec<(u64, u64)>,
    ) -> (r: Option<GameState>)
        ensures
            r is Some <==> (0 <= last_number <= high_score && keys_unique(leaderboard@)
                && keys_unique(penalty_expirations@)),
            r matches Some(s) ==> (s.last_number == last_number && s.last_contributor
                == last_contributor && s.high_score == high_score && s.leaderboard
                == leaderboard && s.penalty_expirations == penalty_expirations),
    {
        if 0 <= last_number && last_number <= high_score && has_unique_keys(&leaderboard)
            && has_unique_keys(&penalty_expirations) {
            Some(GameState {
                last_number,
                last_contributor,
                high_score,
                leaderboard,
                penalty_expirations,
            })
        } else {
            None
        }
    }

    /// The state a load hands out: the record read back where there is a
    /// usable one, else the fresh state.
    pub fn loaded_or_fresh(record: Option<GameState>) -> (r: GameState)
        requires
            record matches Some(s) ==> s.wf(),
        ensures
            r.wf(),
            match record {
                Some(s) => r == s,
                None => r.is_fresh(),
            },
    {
        match record {
            Some(s) => s,
            None => GameState::new(),
        }
    }
}

} // verus!
