use zet::menu::{items, Action};

#[test]
fn a_tab_offers_the_four_things_it_can_do() {
    let labels: Vec<&str> = items(3).into_iter().map(|item| item.label).collect();
    assert_eq!(labels, ["New tab", "New window", "Close tab", "Close other tabs"]);
    let actions: Vec<Action> = items(3).into_iter().map(|item| item.action).collect();
    assert_eq!(
        actions,
        [Action::NewTab, Action::NewWindow, Action::Close, Action::CloseOthers]
    );
}

#[test]
fn closing_the_others_is_not_offered_when_there_are_none() {
    let labels: Vec<&str> = items(1).into_iter().map(|item| item.label).collect();
    assert_eq!(labels, ["New tab", "New window", "Close tab"]);
}

#[test]
fn every_item_has_its_own_words() {
    let mut labels: Vec<&str> = items(4).into_iter().map(|item| item.label).collect();
    assert!(labels.iter().all(|label| !label.is_empty()));
    labels.sort_unstable();
    let count = labels.len();
    labels.dedup();
    assert_eq!(labels.len(), count, "two items share a label");
}

#[test]
fn a_window_with_no_tabs_still_offers_the_three() {
    assert_eq!(items(0).len(), 3);
    assert_eq!(items(2).len(), 4);
}
