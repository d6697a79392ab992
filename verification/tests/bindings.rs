use zet::action::Action;
use zet::bindings::{bound, parse_bindings};
use zet::chord::{Key, Modifiers};
use zet::config::default_keymap;
use zet::keymap::Keymap;

#[test]
fn every_default_binding_names_an_action_the_app_has() {
    let bindings = parse_bindings(&default_keymap());
    assert_eq!(bindings.len(), Action::ALL.len());
    for action in Action::ALL {
        assert!(bindings.iter().any(|(_, a)| *a == action), "{action:?}");
    }
}

#[test]
fn a_binding_that_does_not_parse_is_dropped_rather_than_fatal() {
    let mut keys = Keymap::new();
    keys.insert("copy", "Ctrl+NotAKey");
    keys.insert("paste", "Ctrl+V");
    keys.insert("not-an-action", "Ctrl+X");
    let bindings = parse_bindings(&keys);
    assert_eq!(bindings.len(), 1);
    assert_eq!(bindings[0].1, Action::Paste);
}

#[test]
fn a_keystroke_runs_the_action_its_chord_is_bound_to() {
    let bindings = parse_bindings(&default_keymap());
    assert_eq!(
        bound(&bindings, Modifiers::ctrl() | Modifiers::shift(), Key::Char('T')),
        Some(Action::NewTab)
    );
    assert_eq!(bound(&bindings, Modifiers::alt(), Key::F(4)), Some(Action::Quit));
    assert_eq!(bound(&bindings, Modifiers::ctrl(), Key::Char('t')), None, "the case matters");
    assert_eq!(bound(&bindings, Modifiers::empty(), Key::Char('a')), None);
}
