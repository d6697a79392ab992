use zet::config::{background_key_problems, kind_word, stray_background_keys, BackgroundKind};
use zet::action::Action;
use zet::chord::Chord;
use zet::config::{
    default_keymap, unknown_actions, CursorSettings, CursorShape, Diagnostic, Severity, TabPosition,
    TabSettings, ACTIONS, MAX_CURSOR_THICKNESS, MIN_CURSOR_THICKNESS,
};
use zet::keymap::Keymap;

#[test]
fn the_default_keymap_only_names_actions_that_exist() {
    assert!(unknown_actions(&default_keymap()).is_empty());
    assert_eq!(default_keymap().len(), ACTIONS.len());
}

#[test]
fn the_shipped_keymap_is_written_in_the_chord_syntax_the_parser_expects() {
    for (action, chord) in default_keymap().entries() {
        assert!(!chord.is_empty(), "{action} binds nothing");
        assert!(
            !chord.starts_with('+') && !chord.ends_with('+'),
            "{action} = {chord:?} has a dangling separator"
        );
    }
}

#[test]
fn every_default_binding_parses_and_names_an_action() {
    for (action, chord) in default_keymap().entries() {
        assert!(Action::from_name(&action).is_some(), "{action}");
        assert!(Chord::parse(&chord).is_ok(), "{action} = {chord:?}");
    }
}

#[test]
fn an_unknown_action_in_the_keymap_is_reported() {
    let mut keys = default_keymap();
    keys.insert("open-the-pod-bay-doors", "Ctrl+H");
    keys.insert("aardvark", "Ctrl+J");
    assert_eq!(unknown_actions(&keys), vec!["aardvark", "open-the-pod-bay-doors"]);
}

#[test]
fn the_default_keymap_is_sorted_by_action_name() {
    let names: Vec<String> = default_keymap().entries().into_iter().map(|(name, _)| name).collect();
    let mut sorted = names.clone();
    sorted.sort();
    assert_eq!(names, sorted);
    assert_eq!(default_keymap().get("new-tab").as_deref(), Some("Ctrl+Shift+T"));
    assert_eq!(default_keymap().get("quit").as_deref(), Some("Alt+F4"));
}

#[test]
fn the_tab_strip_flips_and_flips_back() {
    assert_eq!(TabPosition::Top.flipped(), TabPosition::Left);
    assert_eq!(TabPosition::Left.flipped().flipped(), TabPosition::Left);
    assert_eq!(TabPosition::Top.as_str(), "top");
    assert_eq!(TabPosition::Left.as_str(), "left");
    assert_eq!(TabPosition::default(), TabPosition::Top);
}

#[test]
fn the_cursor_shapes_are_spelled_as_the_file_spells_them() {
    let words: Vec<&str> = CursorShape::ALL.iter().map(|shape| shape.as_str()).collect();
    assert_eq!(words, ["block", "bar", "underline", "hollow-block"]);
    assert_eq!(CursorShape::default(), CursorShape::Block);
}

#[test]
fn the_defaults_are_the_documented_ones() {
    let cursor = CursorSettings::default();
    assert_eq!(cursor.shape, CursorShape::Block);
    assert!(cursor.blink);
    assert_eq!(cursor.thickness, 2);
    assert!((MIN_CURSOR_THICKNESS..=MAX_CURSOR_THICKNESS).contains(&cursor.thickness));
    let tabs = TabSettings::default();
    assert_eq!(tabs.position, TabPosition::Top);
    assert!(tabs.open_default_without_asking);
}

#[test]
fn a_diagnostic_carries_its_severity() {
    let warning = Diagnostic::warning("w".to_owned());
    let error = Diagnostic::error("e".to_owned());
    assert_eq!(warning.severity, Severity::Warning);
    assert_eq!(error.severity, Severity::Error);
    assert_eq!(error.message, "e");
}

#[test]
fn an_empty_keymap_has_nothing_to_report() {
    let keys = Keymap::new();
    assert!(keys.is_empty());
    assert!(unknown_actions(&keys).is_empty());
}

#[test]
fn a_key_the_background_does_not_have_is_reported_in_the_order_written() {
    let keys: Vec<String> = ["kind", "color", "path", "angle"].iter().map(|k| k.to_string()).collect();
    assert_eq!(stray_background_keys(BackgroundKind::Solid, &keys), vec!["color", "path", "angle"]);
    assert_eq!(stray_background_keys(BackgroundKind::Image, &keys), vec!["color", "angle"]);
    assert_eq!(stray_background_keys(BackgroundKind::Gradient, &keys), vec!["color", "path"]);
    assert_eq!(kind_word(BackgroundKind::Gradient), "gradient");
}

#[test]
fn a_key_a_background_shape_does_have_is_not_reported() {
    let keys: Vec<String> = ["kind", "from", "to", "angle"].iter().map(|k| k.to_string()).collect();
    assert!(stray_background_keys(BackgroundKind::Gradient, &keys).is_empty());
}

#[test]
fn a_cursor_thickness_outside_the_range_is_replaced_by_the_default() {
    let wide = CursorSettings { shape: CursorShape::Bar, blink: false, thickness: 99 };
    assert!(!wide.thickness_in_range());
    assert_eq!(
        wide.repaired(),
        CursorSettings { shape: CursorShape::Bar, blink: false, thickness: 2 }
    );
    let none = CursorSettings { thickness: 0, ..CursorSettings::default() };
    assert!(!none.thickness_in_range());
    assert_eq!(none.repaired().thickness, 2);
    for thickness in 1..=8 {
        let fine = CursorSettings { thickness, ..CursorSettings::default() };
        assert!(fine.thickness_in_range());
        assert_eq!(fine.repaired(), fine);
    }
}

#[test]
fn keys_the_chosen_background_does_not_have_are_found_in_the_file_text() {
    let section = "[window]\nopacity = 1.0\n\n[window.background]\nkind = \"solid\"\npath = \"wall.png\"\nangle = 90\n";
    assert_eq!(background_key_problems(section, BackgroundKind::Solid), vec!["path", "angle"]);
    assert_eq!(background_key_problems(section, BackgroundKind::Image), vec!["angle"]);
    let inline = "[window]\nbackground = { kind = \"gradient\", from = \"#000000\", opacity = 0.5 }\n";
    assert_eq!(background_key_problems(inline, BackgroundKind::Gradient), vec!["opacity"]);
    assert!(background_key_problems("[window]\nopacity = 1.0\n", BackgroundKind::Solid).is_empty());
    assert!(background_key_problems("[window.background\n", BackgroundKind::Solid).is_empty());
}
