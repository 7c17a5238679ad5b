//! The rule that decides each submission.
use vstd::prelude::*;
use crate::entries::{increment_value, set_value, value_or_zero, with_value};
use crate::state::GameState;

verus! {

/// How long a penalty lasts, in seconds.
pub const PENALTY_DURATION_SECS: u64 = 60 * 60;

/// Why a submission broke the count.
#[derive(Clone, Copy, Debug, PartialEq, Eq)]
pub enum RejectReason {
    /// The value was not the next number; `expected` is the one that was.
    WrongNumber { expected: i64 },
    /// The value was right, but its author also posted the previous number.
    TwiceInARow,
}

/// What became of one submission, and so which side effects to emit.
#[derive(Clone, Copy, Debug, PartialEq, Eq)]
pub enum Outcome {
    /// Not part of the game: nothing changed and nothing is to be done.
    Ignored,
    /// The count went on: acknowledge it.
    Accepted,
    /// The count was reset: acknowledge the failure, give the author the
    /// penalty until `penalty_expiry`, and announce `reason`.
    Rejected { reason: RejectReason, penalty_expiry: u64 },
}

/// Whether `value` from `author` continues the count of `s`.
pub open spec fn continues_count(s: GameState, author: u64, value: i64) -> bool {
    value == s.last_number + 1 && s.last_contributor != Some(author)
}

/// The reason a submission that does not continue the count is given.
pub open spec fn reject_reason(s: GameState, value: i64) -> RejectReason {
    if value != s.last_number + 1 {
        RejectReason::WrongNumber { expected: (s.last_number + 1) as i64 }
    } else {
        RejectReason::TwiceInARow
    }
}

/// The bounds under which a submission can be processed without overflow:
/// the count can grow by one, the author's tally can grow by one, and a
/// penalty starting at `now` has an expiry time that fits.
pub open spec fn submission_fits(s: GameState, author: u64, now: u64) -> bool {
    &&& s.last_number < i64::MAX
    &&& value_or_zero(s.leaderboard_map(), author) < u64::MAX
    &&& now <= u64::MAX - PENALTY_DURATION_SECS
}

/// The state after `author`'s accepted submission.
pub open spec fn accepted_state(s: GameState, author: u64, post: GameState) -> bool {
    &&& post.last_number == s.last_number + 1
    &&& post.high_score == if s.high_score > s.last_number + 1 {
        s.high_score as int
    } else {
        s.last_number + 1
    }
    &&& post.leaderboard_map() == s.leaderboard_map().insert(
        author,
        (value_or_zero(s.leaderboard_map(), author) + 1) as u64,
    )
    &&& post.leaderboard@ == with_value(
        s.leaderboard@,
        author,
        (value_or_zero(s.leaderboard_map(), author) + 1) as u64,
    )
    &&& post.penalty_expirations == s.penalty_expirations
    &&& post.last_contributor == Some(author)
}

/// The state after `author`'s rejected submission at time `now`.
pub open spec fn rejected_state(s: GameState, author: u64, now: u64, post: GameState) -> bool {
    &&& post.last_number == 0
    &&& post.high_score == s.high_score
    &&& post.leaderboard == s.leaderboard
    &&& post.penalty_map() == s.penalty_map().insert(author, (now + PENALTY_DURATION_SECS) as u64)
    &&& post.penalty_expirations@ == with_value(
        s.penalty_expirations@,
        author,
        (now + PENALTY_DURATION_SECS) as u64,
    )
    &&& post.last_contributor == Some(author)
}

impl GameState {
    /// Whether `process_submission` can take a submission from `author` at
    /// time `now` on this state.
    pub fn submission_fits(&self, author: u64, now: u64) -> (r: bool)
        requires
            self.wf(),
        ensures
            r == submission_fits(*self, author, now),
    {
        let count = crate::entries::get_value(&self.leaderboard, author);
        self.last_number < i64::MAX && match count {
            Some(c) => c < u64::MAX,
            None => true,
        } && now <= u64::MAX - PENALTY_DURATION_SECS
    }

    /// Decides one submission and applies it to the state.
    ///
    /// `value` is what the submitted text evaluated to, truncated toward
    /// zero, or `None` where it was not a number; `automated` says whether the
    /// author is a bot; `now` is the current epoch second. Messages from bots
    /// and text that is not a number are ignored. Otherwise the value is
    /// accepted when it is one more than the last number and its author did
    /// not post that number; else the count resets to 0 and the author is
    /// penalised until `now` plus the penalty duration. Either way the author
    /// becomes the last contributor.
    pub fn process_submission(
        &mut self,
        author: u64,
        automated: bool,
        value: Option<i64>,
        now: u64,
    ) -> (outcome: Outcome)
        requires
            old(self).wf(),
            submission_fits(*old(self), author, now),
        ensures
            final(self).wf(),
            automated || value is None ==> outcome == Outcome::Ignored && *final(self)
                == *old(self),
            !automated && value is Some && continues_count(*old(self), author, value->0)
                ==> outcome == Outcome::Accepted && accepted_state(
                *old(self),
                author,
                *final(self),
            ),
            !automated && value is Some && !continues_count(*old(self), author, value->0)
                ==> outcome == (Outcome::Rejected {
                reason: reject_reason(*old(self), value->0),
                penalty_expiry: (now + PENALTY_DURATION_SECS) as u64,
            }) && rejected_state(*old(self), author, now, *final(self)),
    {
        if automated {
            return Outcome::Ignored;
        }
        let value = match value {
            Some(v) => v,
            None => {
                return Outcome::Ignored;
            },
        };
        let next = self.last_number + 1;
        let same_author = match self.last_contributor {
            Some(last) => last == author,
            None => false,
        };
        let outcome = if value == next && !same_author {
            self.last_number = next;
            if self.last_number > self.high_score {
                self.high_score = self.last_number;
            }
            increment_value(&mut self.leaderboard, author);
            Outcome::Accepted
        } else {
            let reason = if value != next {
                RejectReason::WrongNumber { expected: next }
            } else {
                RejectReason::TwiceInARow
            };
            let penalty_expiry = now + PENALTY_DURATION_SECS;
            set_value(&mut self.penalty_expirations, author, penalty_expiry);
            self.last_number = 0;
            Outcome::Rejected { reason, penalty_expiry }
        };
        self.last_contributor = Some(author);
        outcome
    }
}

} // verus!
