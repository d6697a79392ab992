use zet::families::sorted_families;

fn owned(names: &[&str]) -> Vec<String> {
    names.iter().map(|n| n.to_string()).collect()
}

#[test]
fn families_are_listed_without_regard_to_case_and_each_once() {
    let names = owned(&["consolas", "Cascadia Mono", "Arial", "arial", "Consolas", "Arial"]);
    assert_eq!(
        sorted_families(&names),
        owned(&["Arial", "arial", "Cascadia Mono", "Consolas", "consolas"])
    );
}

#[test]
fn a_lowercase_name_is_not_pushed_below_every_capitalised_one() {
    let names = owned(&["Segoe UI", "cascadia mono", "Zapf"]);
    assert_eq!(sorted_families(&names), owned(&["cascadia mono", "Segoe UI", "Zapf"]));
    assert!(sorted_families(&Vec::new()).is_empty());
}

#[test]
fn listing_a_listing_again_changes_nothing() {
    let once = sorted_families(&owned(&["b", "A", "a", "B", "a"]));
    assert_eq!(once, owned(&["A", "a", "B", "b"]));
    assert_eq!(sorted_families(&once), once);
}
