use zet::action::Action;
use zet::bindings::{bound, parse_bindings};
use zet::chord::{Key, Modifiers};
use zet::command::Command;
use zet::config::default_keymap;
use zet::find::Pos;
use zet::window::{blinks, close_commands, copy_command, plan, shown_theme, Drag, Pointer, Step, PAGE};

fn pos(row: usize, col: usize) -> Pos {
    Pos { row, col }
}

#[test]
fn a_click_with_no_drag_leaves_no_selection_behind() {
    let mut pointer = Pointer::default();
    pointer.select_from(pos(2, 2));
    pointer.select_end();
    assert_eq!(pointer.selection(), None);
}

#[test]
fn a_drag_leaves_a_selection_behind() {
    let mut pointer = Pointer::default();
    pointer.select_from(pos(2, 2));
    pointer.select_to(pos(3, 4));
    pointer.select_end();
    let selection = pointer.selection().expect("still selected");
    assert_eq!(selection, Drag { anchor: pos(2, 2), head: pos(3, 4) });
}

#[test]
fn switching_tabs_throws_the_selection_away() {
    let mut pointer = Pointer::default();
    pointer.select_from(pos(1, 1));
    pointer.select_to(pos(2, 2));
    pointer.select_none();
    assert_eq!(pointer.selection(), None);
}

#[test]
fn a_motion_with_no_button_down_selects_nothing() {
    let mut pointer = Pointer::new();
    pointer.select_to(pos(4, 4));
    assert_eq!(pointer.selection(), None);
    pointer.select_end();
    assert_eq!(pointer.selection(), None);
}

#[test]
fn forced_contrast_overrides_the_configured_theme_and_can_be_turned_off_again() {
    assert_eq!(shown_theme("zet-dark", false).slug, "zet-dark");
    assert_eq!(shown_theme("zet-dark", true).slug, "zet-contrast");
    assert_eq!(shown_theme("zet-dark", false).slug, "zet-dark");
    assert_eq!(shown_theme("nord", true).slug, "zet-contrast");
    assert_eq!(shown_theme("no-such-theme", false).slug, "zet-dark");
}

#[test]
fn reduce_motion_turns_the_blink_off_without_touching_the_setting() {
    let setting = true;
    assert!(blinks(setting, false));
    assert!(!blinks(setting, true));
    assert!(!blinks(false, false));
}

#[test]
fn copy_with_nothing_selected_asks_for_nothing() {
    assert_eq!(copy_command(None), None);
}

#[test]
fn copying_a_blank_selection_leaves_the_clipboard_alone() {
    assert_eq!(copy_command(Some(String::new())), None);
    assert_eq!(copy_command(Some("ls".to_owned())), Some(Command::Copy("ls".to_owned())));
}

#[test]
fn closing_the_last_tab_asks_the_host_to_quit() {
    assert_eq!(close_commands(true), vec![Command::Quit]);
}

#[test]
fn closing_one_of_two_tabs_does_not_ask_to_quit() {
    assert!(close_commands(false).is_empty());
}

#[test]
fn a_bound_chord_runs_its_action_instead_of_reaching_the_program() {
    let bindings = parse_bindings(&default_keymap());
    let action = bound(&bindings, Modifiers::alt(), Key::F(4));
    assert_eq!(action, Some(Action::Quit));
    assert_eq!(plan(Action::Quit), Step::Ask(Command::Quit));
    assert_eq!(bound(&bindings, Modifiers::empty(), Key::Char('a')), None);
}

#[test]
fn every_action_is_one_step_for_the_host() {
    assert_eq!(plan(Action::NewTab), Step::OpenTab);
    assert_eq!(plan(Action::CloseTab), Step::CloseActiveTab);
    assert_eq!(plan(Action::NextTab), Step::NextTab);
    assert_eq!(plan(Action::PreviousTab), Step::PreviousTab);
    assert_eq!(plan(Action::NewWindow), Step::Ask(Command::NewWindow));
    assert_eq!(plan(Action::Copy), Step::Copy);
    assert_eq!(plan(Action::Paste), Step::Ask(Command::Paste));
    assert_eq!(plan(Action::Find), Step::Nothing);
    assert_eq!(plan(Action::Settings), Step::Nothing);
    assert_eq!(plan(Action::ToggleTabPosition), Step::FlipTabs);
    assert_eq!(plan(Action::ScrollPageUp), Step::Scroll(PAGE));
    assert_eq!(plan(Action::ScrollPageDown), Step::Scroll(-20));
    assert_eq!(plan(Action::ScrollToTop), Step::Scroll(i32::MIN));
    assert_eq!(plan(Action::ScrollToBottom), Step::ScrollToBottom);
    assert_eq!(plan(Action::FontLarger), Step::FontLarger);
    assert_eq!(plan(Action::FontSmaller), Step::FontSmaller);
    assert_eq!(plan(Action::FontReset), Step::FontReset);
}
