use zet::action::Action;
use zet::config::ACTIONS;

#[test]
fn every_name_round_trips() {
    for action in Action::ALL {
        assert_eq!(Action::from_name(action.name()), Some(action));
    }
}

#[test]
fn the_names_are_the_ones_the_config_file_validates_against() {
    let mut mine: Vec<&str> = Action::ALL.iter().map(|action| action.name()).collect();
    let mut theirs: Vec<&str> = ACTIONS.to_vec();
    mine.sort_unstable();
    theirs.sort_unstable();
    assert_eq!(mine, theirs);
}

#[test]
fn an_unknown_name_is_not_an_action() {
    assert_eq!(Action::from_name("split-pane"), None);
    assert_eq!(Action::from_name("New-Tab"), None, "names are case-sensitive");
}

#[test]
fn the_last_action_is_found_by_its_name() {
    assert_eq!(Action::from_name("quit"), Some(Action::Quit));
    assert_eq!(Action::from_name("toggle-tab-position"), Some(Action::ToggleTabPosition));
    assert_eq!(Action::from_name(""), None);
}
