//! A key event, as the host hands it over.
use vstd::prelude::*;

use crate::chord::{Key, Modifiers};

verus! {

/// What the host is reporting about a key: a press, a repeat, or a release.
///
/// The two encodings disagree about what a repeat is. The kitty protocol can spell one as
/// itself; the legacy encoding sends a repeat as the press it repeats.
#[derive(Clone, Copy, PartialEq, Eq, Hash, Debug, Structural)]
pub enum KeyKind {
    /// The key went down.
    Press,
    /// The key is still down and the keyboard's repeat rate fired again.
    Repeat,
    /// The key came up.
    Release,
}

/// A key event.
///
/// `text` is whatever the platform composed for the event. The legacy encoding never reads
/// it; the kitty protocol carries it inside its escape code only when a program asked for
/// the associated text.
#[derive(Clone, PartialEq, Eq, Debug)]
pub struct KeyEvent {
    /// The key itself. For [`Key::Char`] this is the character the layout produced,
    /// already shifted.
    pub key: Key,
    /// The modifiers held when the event fired.
    pub mods: Modifiers,
    /// The text the platform composed for this event, if any.
    pub text: Option<String>,
    /// Whether this is a press, a repeat, or a release.
    pub kind: KeyKind,
}

} // verus!
