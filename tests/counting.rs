use goober_counting::{GameState, Outcome, RejectReason, PENALTY_DURATION_SECS};

const A: u64 = 1001;
const B: u64 = 2002;
const NOW: u64 = 1_700_000_000;

fn state_at(last_number: i64, last_contributor: Option<u64>) -> GameState {
    GameState::from_parts(last_number, last_contributor, last_number, Vec::new(), Vec::new())
        .unwrap()
}

fn count_of(entries: &[(u64, u64)], user: u64) -> Option<u64> {
    entries.iter().find(|e| e.0 == user).map(|e| e.1)
}

#[test]
fn fresh_state_is_empty() {
    let s = GameState::new();
    assert_eq!(s.last_number, 0);
    assert_eq!(s.last_contributor, None);
    assert_eq!(s.high_score, 0);
    assert!(s.leaderboard.is_empty());
    assert!(s.penalty_expirations.is_empty());
}

#[test]
fn first_count_from_fresh_state() {
    let mut s = GameState::new();
    let out = s.process_submission(A, false, Some(1), NOW);
    assert_eq!(out, Outcome::Accepted);
    assert_eq!(s.last_number, 1);
    assert_eq!(s.high_score, 1);
    assert_eq!(s.last_contributor, Some(A));
    assert_eq!(s.leaderboard, vec![(A, 1)]);
}

#[test]
fn accepted_count_from_other_author() {
    let mut s = state_at(5, None);
    let out = s.process_submission(A, false, Some(6), NOW);
    assert_eq!(out, Outcome::Accepted);
    assert_eq!(s.last_number, 6);
    assert_eq!(count_of(&s.leaderboard, A), Some(1));
    assert_eq!(s.last_contributor, Some(A));
    assert!(s.penalty_expirations.is_empty());
}

#[test]
fn accepted_count_increments_existing_tally_and_keeps_high_score() {
    let mut s =
        GameState::from_parts(3, Some(B), 10, vec![(B, 7), (A, 4)], vec![(B, NOW + 5)]).unwrap();
    let out = s.process_submission(A, false, Some(4), NOW);
    assert_eq!(out, Outcome::Accepted);
    assert_eq!(s.last_number, 4);
    assert_eq!(s.high_score, 10);
    assert_eq!(s.leaderboard, vec![(B, 7), (A, 5)]);
    assert_eq!(s.penalty_expirations, vec![(B, NOW + 5)]);
}

#[test]
fn accepted_count_raises_high_score() {
    let mut s = GameState::from_parts(7, Some(B), 7, vec![(B, 7)], Vec::new()).unwrap();
    s.process_submission(A, false, Some(8), NOW);
    assert_eq!(s.high_score, 8);
    assert_eq!(s.leaderboard, vec![(B, 7), (A, 1)]);
}

#[test]
fn same_author_twice_is_rejected() {
    let mut s = state_at(5, Some(A));
    let out = s.process_submission(A, false, Some(6), NOW);
    assert_eq!(
        out,
        Outcome::Rejected {
            reason: RejectReason::TwiceInARow,
            penalty_expiry: NOW + PENALTY_DURATION_SECS,
        }
    );
    assert_eq!(s.last_number, 0);
    assert_eq!(s.high_score, 5);
    assert_eq!(count_of(&s.penalty_expirations, A), Some(NOW + 3600));
    assert_eq!(s.last_contributor, Some(A));
    assert!(s.leaderboard.is_empty());
}

#[test]
fn wrong_number_is_rejected() {
    let mut s = state_at(5, None);
    let out = s.process_submission(B, false, Some(7), NOW);
    assert_eq!(
        out,
        Outcome::Rejected {
            reason: RejectReason::WrongNumber { expected: 6 },
            penalty_expiry: NOW + 3600,
        }
    );
    assert_eq!(s.last_number, 0);
    assert_eq!(count_of(&s.penalty_expirations, B), Some(NOW + 3600));
    assert_eq!(s.last_contributor, Some(B));
}

#[test]
fn wrong_number_from_same_author_reports_wrong_number() {
    let mut s = state_at(5, Some(A));
    let out = s.process_submission(A, false, Some(9), NOW);
    assert!(matches!(
        out,
        Outcome::Rejected { reason: RejectReason::WrongNumber { expected: 6 }, .. }
    ));
}

#[test]
fn second_penalty_overwrites_first() {
    let mut s = GameState::from_parts(2, None, 2, Vec::new(), vec![(A, NOW - 100), (B, 5)])
        .unwrap();
    s.process_submission(B, false, Some(1), NOW);
    assert_eq!(s.penalty_expirations, vec![(A, NOW - 100), (B, NOW + 3600)]);
}

#[test]
fn non_numeric_text_is_ignored() {
    let mut s = GameState::from_parts(5, Some(B), 9, vec![(B, 5)], vec![(A, NOW)]).unwrap();
    let before = s.clone();
    let out = s.process_submission(A, false, None, NOW);
    assert_eq!(out, Outcome::Ignored);
    assert_eq!(s, before);
}

#[test]
fn automated_author_is_ignored() {
    let mut s = state_at(5, None);
    let before = s.clone();
    assert_eq!(s.process_submission(A, true, Some(6), NOW), Outcome::Ignored);
    assert_eq!(s.process_submission(A, true, Some(42), NOW), Outcome::Ignored);
    assert_eq!(s, before);
}

#[test]
fn submission_fits_checks_bounds() {
    let s = state_at(5, None);
    assert!(s.submission_fits(A, NOW));
    assert!(!s.submission_fits(A, u64::MAX));
    let top = state_at(i64::MAX, None);
    assert!(!top.submission_fits(A, NOW));
    let full = GameState::from_parts(0, None, 0, vec![(A, u64::MAX)], Vec::new()).unwrap();
    assert!(!full.submission_fits(A, NOW));
    assert!(full.submission_fits(B, NOW));
}

#[test]
fn from_parts_rejects_malformed_records() {
    assert!(GameState::from_parts(-1, None, 0, Vec::new(), Vec::new()).is_none());
    assert!(GameState::from_parts(5, None, 4, Vec::new(), Vec::new()).is_none());
    assert!(GameState::from_parts(0, None, 0, vec![(A, 1), (A, 2)], Vec::new()).is_none());
    assert!(GameState::from_parts(0, None, 0, Vec::new(), vec![(B, 1), (A, 3), (B, 2)]).is_none());
    let s = GameState::from_parts(3, Some(A), 4, vec![(A, 1), (B, 2)], vec![(B, 9)]).unwrap();
    assert_eq!(s.last_number, 3);
    assert_eq!(s.last_contributor, Some(A));
    assert_eq!(s.high_score, 4);
    assert_eq!(s.leaderboard, vec![(A, 1), (B, 2)]);
    assert_eq!(s.penalty_expirations, vec![(B, 9)]);
}

#[test]
fn loaded_or_fresh_substitutes_fresh_state() {
    let fresh = GameState::loaded_or_fresh(None);
    assert_eq!(fresh, GameState::new());
    let s = GameState::from_parts(3, Some(A), 4, vec![(A, 1)], vec![(B, 9)]).unwrap();
    assert_eq!(GameState::loaded_or_fresh(Some(s.clone())), s);
}
