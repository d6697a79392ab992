//! The terminal modes a program has set that decide what input it is sent.
use vstd::prelude::*;

verus! {

/// The kitty keyboard protocol's progressive-enhancement flags, as a program pushed them.
#[derive(Clone, Copy, PartialEq, Eq, Hash, Debug, Default, Structural)]
pub struct KeyboardFlags {
    /// Report escape codes for the keys whose bytes are ambiguous.
    pub disambiguate: bool,
    /// Report repeats and releases as well as presses.
    pub event_types: bool,
    /// Report the alternate keys. Never honoured: the host does not carry the base layout.
    pub alternate_keys: bool,
    /// Report every key as an escape code, including the ones that produce text.
    pub all_keys: bool,
    /// Carry the text a key produced inside its escape code.
    pub associated_text: bool,
}

impl KeyboardFlags {
    /// No flags: the program asked for nothing.
    pub fn none() -> (r: KeyboardFlags)
        ensures
            r == KeyboardFlags::nothing(),
    {
        KeyboardFlags {
            disambiguate: false,
            event_types: false,
            alternate_keys: false,
            all_keys: false,
            associated_text: false,
        }
    }

    /// No flags, as a value.
    pub open spec fn nothing() -> KeyboardFlags {
        KeyboardFlags {
            disambiguate: false,
            event_types: false,
            alternate_keys: false,
            all_keys: false,
            associated_text: false,
        }
    }

    /// The disambiguate flag alone.
    pub fn disambiguate() -> (r: KeyboardFlags)
        ensures
            r == (KeyboardFlags { disambiguate: true, ..KeyboardFlags::nothing() }),
    {
        KeyboardFlags { disambiguate: true, ..KeyboardFlags::none() }
    }

    /// The event-types flag alone.
    pub fn event_types() -> (r: KeyboardFlags)
        ensures
            r == (KeyboardFlags { event_types: true, ..KeyboardFlags::nothing() }),
    {
        KeyboardFlags { event_types: true, ..KeyboardFlags::none() }
    }

    /// The alternate-keys flag alone.
    pub fn alternate_keys() -> (r: KeyboardFlags)
        ensures
            r == (KeyboardFlags { alternate_keys: true, ..KeyboardFlags::nothing() }),
    {
        KeyboardFlags { alternate_keys: true, ..KeyboardFlags::none() }
    }

    /// The all-keys flag alone.
    pub fn all_keys() -> (r: KeyboardFlags)
        ensures
            r == (KeyboardFlags { all_keys: true, ..KeyboardFlags::nothing() }),
    {
        KeyboardFlags { all_keys: true, ..KeyboardFlags::none() }
    }

    /// The associated-text flag alone.
    pub fn associated_text() -> (r: KeyboardFlags)
        ensures
            r == (KeyboardFlags { associated_text: true, ..KeyboardFlags::nothing() }),
    {
        KeyboardFlags { associated_text: true, ..KeyboardFlags::none() }
    }

    /// Whether no flag is set.
    pub open spec fn spec_is_empty(self) -> bool {
        self == KeyboardFlags::nothing()
    }

    /// Whether no flag is set.
    pub fn is_empty(&self) -> (r: bool)
        ensures
            r == self.spec_is_empty(),
    {
        !self.disambiguate && !self.event_types && !self.alternate_keys && !self.all_keys
            && !self.associated_text
    }

    /// Every flag set in either.
    pub open spec fn join(self, other: KeyboardFlags) -> KeyboardFlags {
        KeyboardFlags {
            disambiguate: self.disambiguate || other.disambiguate,
            event_types: self.event_types || other.event_types,
            alternate_keys: self.alternate_keys || other.alternate_keys,
            all_keys: self.all_keys || other.all_keys,
            associated_text: self.associated_text || other.associated_text,
        }
    }

    /// Every flag set in either.
    pub fn union(self, other: KeyboardFlags) -> (r: KeyboardFlags)
        ensures
            r == self.join(other),
    {
        KeyboardFlags {
            disambiguate: self.disambiguate || other.disambiguate,
            event_types: self.event_types || other.event_types,
            alternate_keys: self.alternate_keys || other.alternate_keys,
            all_keys: self.all_keys || other.all_keys,
            associated_text: self.associated_text || other.associated_text,
        }
    }
}

impl core::ops::BitOr for KeyboardFlags {
    type Output = KeyboardFlags;

    fn bitor(self, rhs: KeyboardFlags) -> (r: KeyboardFlags)
        ensures
            r == self.join(rhs),
    {
        self.union(rhs)
    }
}

impl vstd::std_specs::ops::BitOrSpecImpl for KeyboardFlags {
    open spec fn obeys_bitor_spec() -> bool {
        true
    }

    open spec fn bitor_req(self, rhs: KeyboardFlags) -> bool {
        true
    }

    open spec fn bitor_spec(self, rhs: KeyboardFlags) -> KeyboardFlags {
        self.join(rhs)
    }
}

/// Which mouse events a program asked to be told about. The five are cumulative.
#[derive(Clone, Copy, PartialEq, Eq, Hash, Debug, Structural)]
pub enum MouseMode {
    /// Nothing: the pointer is the terminal's.
    Off,
    /// Presses only.
    X10,
    /// Presses and releases.
    Button,
    /// Presses, releases, and motion while a button is held.
    Drag,
    /// Everything, including a bare motion.
    Motion,
}

/// How a mouse report is written.
#[derive(Clone, Copy, PartialEq, Eq, Hash, Debug, Structural)]
pub enum MouseEncoding {
    /// Every value packed into one byte, offset by 32.
    X10,
    /// The X10 form, with values past 127 widened to two-byte UTF-8 characters.
    Utf8,
    /// Decimal parameters, with the release marked by the final byte.
    Sgr,
    /// The X10 value printed in decimal.
    Urxvt,
}

/// The modes that decide what input a program is sent.
#[derive(Clone, Copy, PartialEq, Eq, Debug, Structural)]
pub struct Modes {
    /// `DECCKM`: unmodified cursor keys send `SS3` rather than `CSI`.
    pub app_cursor_keys: bool,
    /// `LNM`: Enter sends a line feed rather than a carriage return.
    pub newline: bool,
    /// Pasted text is wrapped in the bracketed-paste markers.
    pub bracketed_paste: bool,
    /// Focus changes are reported.
    pub focus_events: bool,
    /// Which mouse events are reported.
    pub mouse: MouseMode,
    /// How mouse events are written.
    pub mouse_encoding: MouseEncoding,
    /// The kitty keyboard protocol flags in force.
    pub keyboard: KeyboardFlags,
}

impl Modes {
    /// The modes of a terminal nothing has changed.
    pub open spec fn initial() -> Modes {
        Modes {
            app_cursor_keys: false,
            newline: false,
            bracketed_paste: false,
            focus_events: false,
            mouse: MouseMode::Off,
            mouse_encoding: MouseEncoding::X10,
            keyboard: KeyboardFlags::nothing(),
        }
    }
}

impl Default for Modes {
    fn default() -> (r: Modes)
        ensures
            r == Modes::initial(),
    {
        Modes {
            app_cursor_keys: false,
            newline: false,
            bracketed_paste: false,
            focus_events: false,
            mouse: MouseMode::Off,
            mouse_encoding: MouseEncoding::X10,
            keyboard: KeyboardFlags::none(),
        }
    }
}

} // verus!
