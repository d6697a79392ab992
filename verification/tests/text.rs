use zet::text::{selection_text, SelectedCell, SelectedRow};

/// A row of one-character cells, as the host reads the selected columns out of its grid.
fn row(text: &str, wrapped: bool) -> SelectedRow {
    SelectedRow {
        cells: text
            .chars()
            .map(|c| SelectedCell { text: c.to_string(), spacer: false })
            .collect(),
        wrapped,
    }
}

fn cell(text: &str) -> SelectedCell {
    SelectedCell { text: text.to_string(), spacer: false }
}

fn spacer() -> SelectedCell {
    SelectedCell { text: " ".to_string(), spacer: true }
}

#[test]
fn one_word_is_one_word() {
    // "hello world", columns 0 to 4.
    assert_eq!(selection_text(&vec![row("hello", false)], true), "hello");
}

#[test]
fn a_selection_across_rows_comes_back_with_newlines() {
    let rows = vec![
        row("one                 ", false),
        row("two                 ", false),
        row("three", false),
    ];
    assert_eq!(selection_text(&rows, true), "one\ntwo\nthree");
}

#[test]
fn a_soft_wrapped_line_is_not_broken_where_the_window_ended() {
    // Eight columns, twelve characters: the first row wrapped into the second.
    let rows = vec![row("abcdefgh", true), row("ijkl", false)];
    assert_eq!(selection_text(&rows, true), "abcdefghijkl");
}

#[test]
fn trailing_spaces_do_not_come_along() {
    let rows = vec![row("code                ", false)];
    assert_eq!(selection_text(&rows, true), "code");
}

#[test]
fn half_of_a_wide_character_is_not_a_character() {
    let rows = vec![SelectedRow {
        cells: vec![cell("\u{4e2d}"), spacer(), cell("\u{6587}"), spacer()],
        wrapped: false,
    }];
    assert_eq!(selection_text(&rows, true), "\u{4e2d}\u{6587}");
}

#[test]
fn a_combining_mark_stays_with_its_base() {
    let rows = vec![SelectedRow { cells: vec![cell("e\u{0301}"), cell("x")], wrapped: false }];
    assert_eq!(selection_text(&rows, true), "e\u{0301}x");
}

#[test]
fn a_selection_reaches_only_the_columns_it_names() {
    // "one two": columns 4 to 6, and 4 to the end of the row.
    assert_eq!(selection_text(&vec![row("two", false)], true), "two");
    assert_eq!(selection_text(&vec![row("two             ", false)], true), "two");
}

#[test]
fn a_selection_of_nothing_is_nothing() {
    assert_eq!(selection_text(&vec![row(" ", false)], true), "");
    assert_eq!(selection_text(&Vec::new(), false), "", "past the last row");
}

#[test]
fn a_selection_past_the_grid_ends_its_last_row_with_a_line_break() {
    let rows = vec![row("one", false), row("two  ", false)];
    assert_eq!(selection_text(&rows, false), "one\ntwo\n");
    let rows = vec![row("one", false), row("two  ", true)];
    assert_eq!(selection_text(&rows, false), "one\ntwo");
}

#[test]
fn white_space_of_every_kind_comes_off_the_end_of_a_row_but_not_the_middle() {
    let rows = vec![row("a b\u{a0}\u{3000}\t", false), row("  c", false)];
    assert_eq!(selection_text(&rows, true), "a b\n  c");
}
