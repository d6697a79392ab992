use zet::chord::{Chord, Key, Modifiers};

fn chord(mods: Modifiers, key: Key) -> Chord {
    Chord { mods, key }
}

#[test]
fn parses_the_canonical_spelling() {
    let c = Chord::parse("Ctrl+Shift+T").unwrap();
    assert_eq!(c.mods, Modifiers::ctrl() | Modifiers::shift());
    assert_eq!(c.key, Key::Char('T'));
}

#[test]
fn parses_a_lowercase_spelling_too() {
    let c = Chord::parse("ctrl+shift+t").unwrap();
    assert_eq!(c.mods, Modifiers::ctrl() | Modifiers::shift());
    assert_eq!(c.key, Key::Char('t'));
}

#[test]
fn modifiers_may_be_written_in_any_order() {
    assert_eq!(
        Chord::parse("Shift+Ctrl+Alt+Super+T").unwrap(),
        Chord::parse("Super+Alt+Ctrl+Shift+T").unwrap()
    );
}

#[test]
fn a_named_punctuation_key_parses_and_renders() {
    let c = Chord::parse("Ctrl+Plus").unwrap();
    assert_eq!(c, chord(Modifiers::ctrl(), Key::Plus));
    assert_eq!(c.to_string(), "Ctrl+Plus");
}

#[test]
fn a_function_key_parses_and_renders() {
    let c = Chord::parse("Alt+F4").unwrap();
    assert_eq!(c, chord(Modifiers::alt(), Key::F(4)));
    assert_eq!(c.to_string(), "Alt+F4");
}

#[test]
fn a_digit_key_parses_and_renders() {
    let c = Chord::parse("Ctrl+0").unwrap();
    assert_eq!(c, chord(Modifiers::ctrl(), Key::Char('0')));
    assert_eq!(c.to_string(), "Ctrl+0");
}

#[test]
fn the_plus_key_can_be_written_between_pluses() {
    assert_eq!(
        Chord::parse("Ctrl++").unwrap(),
        chord(Modifiers::ctrl(), Key::Char('+'))
    );
}

#[test]
fn the_display_form_parses_back_to_the_same_chord() {
    for text in [
        "Ctrl+Shift+T",
        "ctrl+shift+t",
        "Ctrl+Plus",
        "Alt+F4",
        "Ctrl+0",
        "Ctrl++",
        "Super+Alt+Left",
        "F24",
        "Escape",
    ] {
        let parsed = Chord::parse(text).unwrap();
        let printed = parsed.to_string();
        assert_eq!(
            Chord::parse(&printed).unwrap(),
            parsed,
            "`{text}` printed as `{printed}` and did not come back"
        );
    }
}

#[test]
fn every_key_round_trips_through_its_name() {
    let mut keys: Vec<Key> = "abcXYZ019".chars().map(Key::Char).collect();
    keys.extend([
        Key::Char('@'),
        Key::Char('+'),
        Key::Enter,
        Key::Tab,
        Key::Backspace,
        Key::Escape,
        Key::Space,
        Key::Delete,
        Key::Insert,
        Key::Home,
        Key::End,
        Key::PageUp,
        Key::PageDown,
        Key::Up,
        Key::Down,
        Key::Left,
        Key::Right,
        Key::CapsLock,
        Key::NumLock,
        Key::ScrollLock,
        Key::PrintScreen,
        Key::Pause,
        Key::Menu,
        Key::Plus,
        Key::Minus,
        Key::Comma,
        Key::Period,
        Key::Slash,
        Key::Semicolon,
        Key::Quote,
        Key::Backquote,
        Key::Backslash,
        Key::BracketLeft,
        Key::BracketRight,
        Key::Equal,
    ]);
    keys.extend((1..=24).map(Key::F));
    for key in keys {
        let name = key.name();
        assert_eq!(Key::from_name(&name), Some(key), "`{name}` did not come back");
    }
}

#[test]
fn function_keys_are_bounded() {
    assert_eq!(Key::from_name("F1"), Some(Key::F(1)));
    assert_eq!(Key::from_name("f24"), Some(Key::F(24)));
    assert_eq!(Key::from_name("F0"), None);
    assert_eq!(Key::from_name("F25"), None);
}

#[test]
fn empty_text_is_an_error() {
    assert!(Chord::parse("").is_err());
}

#[test]
fn a_trailing_plus_is_an_error() {
    assert!(Chord::parse("Ctrl+").is_err());
}

#[test]
fn an_unknown_key_is_an_error() {
    assert!(Chord::parse("Ctrl+NotAKey").is_err());
}

#[test]
fn an_unknown_modifier_is_an_error() {
    assert!(Chord::parse("Foo+T").is_err());
}

#[test]
fn modifiers_with_no_key_are_an_error() {
    assert!(Chord::parse("Ctrl+Shift").is_err());
}

#[test]
fn the_error_names_the_text_it_was_given() {
    let message = Chord::parse("Ctrl+Nope").unwrap_err().message();
    assert!(message.contains("Ctrl+Nope"), "{message}");
}

#[test]
fn from_str_is_the_same_as_parse() {
    assert_eq!(
        "Ctrl+A".parse::<Chord>().unwrap(),
        Chord::parse("Ctrl+A").unwrap()
    );
}

#[test]
fn matches_compares_both_halves() {
    let c = chord(Modifiers::ctrl(), Key::Char('t'));
    assert!(c.matches(Modifiers::ctrl(), Key::Char('t')));
    assert!(!c.matches(Modifiers::empty(), Key::Char('t')));
    assert!(!c.matches(Modifiers::ctrl(), Key::Char('T')));
    assert!(!c.matches(Modifiers::ctrl(), Key::Tab));
}

#[test]
fn the_error_message_names_what_is_not_a_key() {
    let message = Chord::parse("Ctrl+Nope").unwrap_err().message();
    assert_eq!(message, "`Ctrl+Nope` does not name a key: `Nope` is not one");
}

#[test]
fn a_chord_prints_its_modifiers_in_a_fixed_order() {
    let c = Chord::parse("Super+Alt+Shift+Ctrl+x").unwrap();
    assert_eq!(c.to_string(), "Ctrl+Shift+Alt+Super+x");
}

#[test]
fn spaces_around_the_parts_are_ignored() {
    assert_eq!(
        Chord::parse(" Ctrl + Shift + T ").unwrap(),
        chord(Modifiers::ctrl() | Modifiers::shift(), Key::Char('T'))
    );
}

#[test]
fn a_modifier_set_knows_what_it_holds() {
    let both = Modifiers::ctrl() | Modifiers::shift();
    assert!(both.contains(Modifiers::ctrl()));
    assert!(!both.contains(Modifiers::alt()));
    assert!(Modifiers::empty().is_empty());
    assert!(!both.is_empty());
    assert_eq!(both.union(Modifiers::logo()), Modifiers::ctrl() | Modifiers::shift() | Modifiers::logo());
}
