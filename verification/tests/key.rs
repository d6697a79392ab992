use zet::chord::{Key, Modifiers};
use zet::key::{KeyEvent, KeyKind};

#[test]
fn a_key_event_carries_its_own_text_without_the_encoder_reading_it() {
    let event = KeyEvent {
        key: Key::Char('a'),
        mods: Modifiers::empty(),
        text: Some("a".into()),
        kind: KeyKind::Press,
    };
    assert_eq!(event.key, Key::Char('a'));
    assert_eq!(event.text.as_deref(), Some("a"));
    assert_eq!(event.kind, KeyKind::Press);
}
