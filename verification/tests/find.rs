use zet::find::{Find, Match, Pos, MATCH_LIMIT};

/// A match of `len` cells starting at `row`, `col`.
fn at(row: usize, col: usize, len: usize) -> Match {
    Match { start: Pos { row, col }, end: Pos { row, col: col + len - 1 } }
}

/// A bar that has been given `query` and handed `found` as what a search from row zero found.
fn searching(query: &str, found: Vec<Match>) -> Find {
    let mut find = Find::default();
    find.open();
    for ch in query.chars() {
        find.push(ch);
    }
    find.search(found, 0);
    find
}

#[test]
fn a_closed_bar_is_doing_nothing_and_says_so() {
    let find = Find::default();
    assert!(!find.is_open());
    assert_eq!(find.count(), 0);
    assert_eq!(find.position(), None);
    assert_eq!(find.active(), None);
}

#[test]
fn typing_builds_a_query_and_the_search_finds_what_it_says() {
    // "alpha beta" / "beta gamma": `beta` at row 0 column 6 and row 1 column 0.
    let find = searching("beta", vec![at(0, 6, 4), at(1, 0, 4)]);
    assert_eq!(find.query(), "beta");
    assert_eq!(find.count(), 2);
    assert!(find.is_open());
}

#[test]
fn backspace_takes_a_character_back_and_says_whether_there_was_one() {
    let mut find = Find::default();
    assert!(!find.pop());
    find.push('a');
    assert!(find.pop());
    assert_eq!(find.query(), "");
    assert!(!find.pop());
}

#[test]
fn a_control_character_is_not_part_of_a_query() {
    let mut find = Find::default();
    find.push('\t');
    find.push('\n');
    find.push('\u{1b}');
    assert_eq!(find.query(), "");
    find.push('a');
    assert_eq!(find.query(), "a");
}

#[test]
fn a_search_that_has_no_reason_to_run_again_does_not() {
    let mut find = searching("alpha", vec![at(0, 0, 5)]);
    assert_eq!(find.count(), 1);
    // The grid grew a second `alpha`, but nobody said so: the old answer stands.
    find.search(vec![at(0, 0, 5), at(1, 0, 5)], 0);
    assert_eq!(find.count(), 1);
    find.touch();
    find.search(vec![at(0, 0, 5), at(1, 0, 5)], 0);
    assert_eq!(find.count(), 2);
}

#[test]
fn the_arrows_walk_the_matches_and_wrap_at_both_ends() {
    let mut find = searching("one", vec![at(0, 0, 3), at(0, 4, 3), at(0, 8, 3)]);
    assert_eq!(find.count(), 3);
    assert_eq!(find.position(), Some(1));
    find.next_match();
    assert_eq!(find.position(), Some(2));
    find.next_match();
    assert_eq!(find.position(), Some(3));
    find.next_match();
    assert_eq!(find.position(), Some(1), "wraps forward");
    find.previous_match();
    assert_eq!(find.position(), Some(3), "wraps backward");
}

#[test]
fn the_arrows_start_at_the_first_match_below_the_top_of_the_view_and_wrap_past_the_end() {
    // `a` on rows 0, 2 and 4.
    let found = vec![at(0, 0, 1), at(2, 0, 1), at(4, 0, 1)];
    let mut find = Find::default();
    find.open();
    find.push('a');
    find.search(found.clone(), 4);
    assert_eq!(find.position(), Some(3));
    // A bar reopened from scratch, asked for a row past every match, starts at the top.
    let mut fresh = Find::default();
    fresh.open();
    fresh.push('a');
    fresh.search(found, 99);
    assert_eq!(fresh.position(), Some(1));
}

#[test]
fn a_search_that_runs_again_under_a_moving_terminal_leaves_the_match_alone() {
    let mut find = searching("a", vec![at(0, 0, 1), at(2, 0, 1)]);
    find.next_match();
    assert_eq!(find.position(), Some(2));
    find.touch();
    find.search(vec![at(0, 0, 1), at(2, 0, 1), at(3, 0, 1)], 0);
    assert_eq!(find.count(), 3, "the new match was found");
    assert_eq!(find.position(), Some(2), "and the cursor did not move");
}

#[test]
fn typing_another_character_narrows_around_where_you_already_are() {
    // `b` on rows 0 to 3, `be` on rows 1 and 3.
    let mut find = Find::default();
    find.open();
    find.push('b');
    find.search(vec![at(0, 0, 1), at(1, 0, 1), at(2, 0, 1), at(3, 0, 1)], 0);
    assert_eq!(find.active().map(|found| found.start.row), Some(0));
    find.push('e');
    find.search(vec![at(1, 0, 2), at(3, 0, 2)], 2);
    assert_eq!(find.query(), "be");
    assert_eq!(find.active().map(|found| found.start.row), Some(1));
}

#[test]
fn a_query_that_matches_nothing_has_no_match_to_be_on() {
    let find = searching("omega", Vec::new());
    assert_eq!(find.count(), 0);
    assert_eq!(find.position(), None);
    assert_eq!(find.active(), None);
    assert!(!find.capped());
}

#[test]
fn the_limit_is_reported_rather_than_hid() {
    let found: Vec<Match> = (0..MATCH_LIMIT).map(|i| at(i / 100, i % 100, 1)).collect();
    let find = searching("x", found);
    assert_eq!(find.count(), MATCH_LIMIT);
    assert!(find.capped());
}

#[test]
fn clearing_the_query_takes_the_matches_with_it() {
    let mut find = searching("alpha", vec![at(0, 0, 5)]);
    assert_eq!(find.count(), 1);
    find.clear();
    find.search(Vec::new(), 0);
    assert_eq!(find.query(), "");
    assert_eq!(find.count(), 0);
    assert_eq!(find.position(), None);
}

#[test]
fn closing_keeps_the_query_and_throws_the_positions_away() {
    let mut find = searching("alpha", vec![at(0, 0, 5)]);
    find.close();
    assert!(!find.is_open());
    assert_eq!(find.query(), "alpha");
    assert_eq!(find.count(), 0, "positions in a grid that has been moving");
    assert_eq!(find.position(), None);
}

#[test]
fn a_closed_bar_reopened_finds_the_same_thing_again() {
    let mut find = searching("beta", vec![at(0, 6, 4)]);
    find.close();
    find.open();
    assert!(find.is_stale());
    find.search(vec![at(0, 6, 4)], 0);
    assert_eq!(find.count(), 1);
    assert_eq!(find.position(), Some(1));
}

#[test]
fn the_arrows_do_nothing_when_there_is_nothing_to_walk() {
    let mut find = Find::default();
    find.next_match();
    find.previous_match();
    assert_eq!(find.position(), None);
}

#[test]
fn forward_then_back_returns_to_the_same_match() {
    let mut find = searching("z", vec![at(0, 0, 1), at(1, 0, 1), at(5, 2, 1)]);
    for _ in 0..3 {
        let before = find.position();
        find.next_match();
        find.previous_match();
        assert_eq!(find.position(), before);
        find.next_match();
    }
}

#[test]
fn the_tally_reads_the_position_and_the_count() {
    let mut find = searching("z", vec![at(0, 0, 1), at(1, 0, 1)]);
    assert_eq!(find.tally(), Some((1, 2)));
    find.next_match();
    assert_eq!(find.tally(), Some((2, 2)));
    assert!(find.is_active(1));
    assert!(!find.is_active(0));
    assert_eq!(find.matches().len(), 2);
    assert_eq!(Find::default().tally(), None);
}
