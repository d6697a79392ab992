use zet::picker::Picker;

#[test]
fn a_picker_nobody_asked_for_is_not_on_screen() {
    let picker = Picker::default();
    assert!(!picker.is_open());
    assert_eq!(picker.at(), 0);
}

#[test]
fn opening_lights_the_row_that_would_have_opened_anyway() {
    let mut picker = Picker::default();
    picker.move_by(1, 4);
    picker.open();
    assert!(picker.is_open());
    assert_eq!(picker.at(), 0, "the highlight starts at the top");
}

#[test]
fn down_walks_the_list_and_wraps_past_the_end() {
    let mut picker = Picker::default();
    picker.open();
    for row in [1, 2, 0] {
        picker.move_by(1, 3);
        assert_eq!(picker.at(), row);
    }
}

#[test]
fn up_from_the_first_row_wraps_to_the_last() {
    let mut picker = Picker::default();
    picker.open();
    picker.move_by(-1, 3);
    assert_eq!(picker.at(), 2);
    picker.move_by(-1, 3);
    assert_eq!(picker.at(), 1);
}

#[test]
fn choosing_and_changing_your_mind_leave_the_highlight_at_the_top() {
    for leaving in [Picker::close, Picker::open] {
        let mut picker = Picker::default();
        picker.open();
        picker.move_by(2, 5);
        leaving(&mut picker);
        assert_eq!(picker.at(), 0);
    }
}

#[test]
fn a_machine_with_one_shell_does_not_move_off_it() {
    let mut picker = Picker::default();
    picker.open();
    picker.move_by(1, 1);
    assert_eq!(picker.at(), 0);
    picker.move_by(-1, 1);
    assert_eq!(picker.at(), 0);
}

#[test]
fn a_list_with_no_rows_has_nowhere_to_go() {
    let mut picker = Picker::default();
    picker.open();
    picker.move_by(1, 0);
    picker.move_by(-1, 0);
    assert_eq!(picker.at(), 0);
}

#[test]
fn a_long_jump_wraps_as_many_times_as_it_has_to() {
    let mut picker = Picker::new();
    picker.move_by(7, 3);
    assert_eq!(picker.at(), 1);
    picker.move_by(-8, 3);
    assert_eq!(picker.at(), 2);
    picker.move_by(3, 5);
    picker.move_by(-3, 5);
    assert_eq!(picker.at(), 2, "moving back undoes moving on");
}
