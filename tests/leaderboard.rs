use goober_counting::{strip_backslashes, GameState};

#[test]
fn ranking_orders_by_count_descending() {
    let s = GameState::from_parts(
        0,
        None,
        0,
        vec![(1, 3), (2, 10), (3, 1), (4, 7)],
        Vec::new(),
    )
    .unwrap();
    assert_eq!(s.leaderboard_ranking(), vec![(2, 10), (4, 7), (1, 3), (3, 1)]);
    assert_eq!(s.leaderboard, vec![(1, 3), (2, 10), (3, 1), (4, 7)]);
}

#[test]
fn ranking_keeps_table_order_among_ties() {
    let s = GameState::from_parts(
        0,
        None,
        0,
        vec![(5, 2), (6, 4), (7, 2), (8, 4), (9, 2)],
        Vec::new(),
    )
    .unwrap();
    assert_eq!(s.leaderboard_ranking(), vec![(6, 4), (8, 4), (5, 2), (7, 2), (9, 2)]);
}

#[test]
fn ranking_of_empty_leaderboard_is_empty() {
    assert!(GameState::new().leaderboard_ranking().is_empty());
}

#[test]
fn backslashes_are_stripped() {
    assert_eq!(strip_backslashes("\\6"), "6");
    assert_eq!(strip_backslashes("2\\*3"), "2*3");
    assert_eq!(strip_backslashes("\\\\\\"), "");
    assert_eq!(strip_backslashes(""), "");
}

#[test]
fn text_without_backslashes_is_kept() {
    assert_eq!(strip_backslashes("12 + 3"), "12 + 3");
    assert_eq!(strip_backslashes("ünï ✅"), "ünï ✅");
}
