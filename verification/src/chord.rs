//! Keys, modifiers, and the text form a keybinding is written in.
use vstd::prelude::*;

use crate::spell::{
    digit_char, ascii_lower, ascii_lower_seq, lower_char, chars_of, decimal, lower_all, push_decimal_chars, push_str_chars, slice_of,
    spells, string_of, trim, trimmed,
};

verus! {

/// The modifiers held when a key was pressed.
///
/// Four switches rather than a packed bit set, because nothing reads the bits: the wire
/// values are xterm's and are computed where the sequence being built is visible.
#[derive(Clone, Copy, PartialEq, Eq, Hash, Debug, Default, Structural)]
pub struct Modifiers {
    /// Shift.
    pub shift: bool,
    /// Control.
    pub ctrl: bool,
    /// Alt.
    pub alt: bool,
    /// The Windows key.
    pub logo: bool,
}

impl Modifiers {
    /// Shift alone.
    pub fn shift() -> (r: Modifiers)
        ensures
            r == (Modifiers { shift: true, ctrl: false, alt: false, logo: false }),
    {
        Modifiers { shift: true, ctrl: false, alt: false, logo: false }
    }

    /// Control alone.
    pub fn ctrl() -> (r: Modifiers)
        ensures
            r == (Modifiers { shift: false, ctrl: true, alt: false, logo: false }),
    {
        Modifiers { shift: false, ctrl: true, alt: false, logo: false }
    }

    /// Alt alone.
    pub fn alt() -> (r: Modifiers)
        ensures
            r == (Modifiers { shift: false, ctrl: false, alt: true, logo: false }),
    {
        Modifiers { shift: false, ctrl: false, alt: true, logo: false }
    }

    /// The Windows key alone.
    pub fn logo() -> (r: Modifiers)
        ensures
            r == (Modifiers { shift: false, ctrl: false, alt: false, logo: true }),
    {
        Modifiers { shift: false, ctrl: false, alt: false, logo: true }
    }

    /// No modifier at all, as a value.
    pub open spec fn nothing() -> Modifiers {
        Modifiers { shift: false, ctrl: false, alt: false, logo: false }
    }

    /// Every modifier held in either.
    pub open spec fn join(self, other: Modifiers) -> Modifiers {
        Modifiers {
            shift: self.shift || other.shift,
            ctrl: self.ctrl || other.ctrl,
            alt: self.alt || other.alt,
            logo: self.logo || other.logo,
        }
    }

    /// Whether every modifier of `other` is held in this one.
    pub open spec fn holds(self, other: Modifiers) -> bool {
        &&& other.shift ==> self.shift
        &&& other.ctrl ==> self.ctrl
        &&& other.alt ==> self.alt
        &&& other.logo ==> self.logo
    }

    /// No modifiers.
    pub fn empty() -> (r: Modifiers)
        ensures
            r == Modifiers::nothing(),
    {
        Modifiers { shift: false, ctrl: false, alt: false, logo: false }
    }

    /// Whether nothing is held.
    pub fn is_empty(&self) -> (r: bool)
        ensures
            r == (*self == Modifiers::nothing()),
    {
        !self.shift && !self.ctrl && !self.alt && !self.logo
    }

    /// Whether every modifier of `other` is held.
    pub fn contains(&self, other: Modifiers) -> (r: bool)
        ensures
            r == self.holds(other),
    {
        (!other.shift || self.shift) && (!other.ctrl || self.ctrl) && (!other.alt || self.alt) && (
        !other.logo || self.logo)
    }

    /// Every modifier held in either.
    pub fn union(self, other: Modifiers) -> (r: Modifiers)
        ensures
            r == self.join(other),
    {
        Modifiers {
            shift: self.shift || other.shift,
            ctrl: self.ctrl || other.ctrl,
            alt: self.alt || other.alt,
            logo: self.logo || other.logo,
        }
    }
}

impl core::ops::BitOr for Modifiers {
    type Output = Modifiers;

    fn bitor(self, rhs: Modifiers) -> (r: Modifiers)
        ensures
            r == self.join(rhs),
    {
        self.union(rhs)
    }
}

impl vstd::std_specs::ops::BitOrSpecImpl for Modifiers {
    open spec fn obeys_bitor_spec() -> bool {
        true
    }

    open spec fn bitor_req(self, rhs: Modifiers) -> bool {
        true
    }

    open spec fn bitor_spec(self, rhs: Modifiers) -> Modifiers {
        self.join(rhs)
    }
}

/// A key, as something a person can name.
///
/// [`Key::Char`] carries the character a layout produced, and the named punctuation
/// variants carry the same keys as a keyboard event names them; both round-trip through
/// text, and the encoder treats them identically.
#[derive(Clone, Copy, PartialEq, Eq, Hash, Debug, Structural)]
pub enum Key {
    /// The character the layout produced, already shifted and composed.
    Char(char),
    /// Return.
    Enter,
    /// Tab.
    Tab,
    /// Backspace.
    Backspace,
    /// Escape.
    Escape,
    /// The space bar.
    Space,
    /// Forward delete.
    Delete,
    /// Insert.
    Insert,
    /// Home.
    Home,
    /// End.
    End,
    /// Page up.
    PageUp,
    /// Page down.
    PageDown,
    /// The up arrow.
    Up,
    /// The down arrow.
    Down,
    /// The left arrow.
    Left,
    /// The right arrow.
    Right,
    /// Caps lock itself, not the state it toggles.
    CapsLock,
    /// Num lock itself.
    NumLock,
    /// Scroll lock itself.
    ScrollLock,
    /// Print screen.
    PrintScreen,
    /// Pause.
    Pause,
    /// The context menu key.
    Menu,
    /// The `+` key.
    Plus,
    /// The `-` key.
    Minus,
    /// The `,` key.
    Comma,
    /// The `.` key.
    Period,
    /// The `/` key.
    Slash,
    /// The `;` key.
    Semicolon,
    /// The `'` key.
    Quote,
    /// The `` ` `` key.
    Backquote,
    /// The `\` key.
    Backslash,
    /// The `[` key.
    BracketLeft,
    /// The `]` key.
    BracketRight,
    /// The `=` key.
    Equal,
    /// A function key, `1` to `24`.
    F(u8),
}

/// Whether a character is an ASCII decimal digit.
pub open spec fn is_digit(c: char) -> bool {
    '0' <= c <= '9'
}

/// The value of a run of decimal digits.
pub open spec fn digits_value(s: Seq<char>) -> nat
    decreases s.len(),
{
    if s.len() == 0 {
        0
    } else {
        digits_value(s.drop_last()) * 10 + ((s.last() as u32) - 48) as nat
    }
}

/// The digits of a number as `u8::from_str` reads it: everything after an optional `+`.
pub open spec fn unsigned_digits(s: Seq<char>) -> Seq<char> {
    if s.len() > 0 && s[0] == '+' { s.drop_first() } else { s }
}

/// Whether every character is a digit.
pub open spec fn all_digits(d: Seq<char>) -> bool {
    forall|i: int| 0 <= i < d.len() ==> #[trigger] is_digit(d[i])
}

/// What `u8::from_str` makes of a string: an optional `+`, at least one digit, and a
/// value that fits.
pub open spec fn parse_u8(s: Seq<char>) -> Option<u8> {
    let d = unsigned_digits(s);
    if d.len() > 0 && all_digits(d) && digits_value(d) <= 255 {
        Some(digits_value(d) as u8)
    } else {
        None
    }
}

/// The function key a lowercased name spells, if it spells one: `f` and a number from
/// one to twenty-four.
pub open spec fn function_key(l: Seq<char>) -> Option<Key> {
    if l.len() > 0 && l[0] == 'f' {
        match parse_u8(l.drop_first()) {
            Some(n) => if 1 <= n <= 24 { Some(Key::F(n)) } else { None },
            None => None,
        }
    } else {
        None
    }
}

/// The named key a lowercased name spells.
pub open spec fn named_key(l: Seq<char>) -> Option<Key> {
    if l == "enter"@ {
        Some(Key::Enter)
    } else if l == "tab"@ {
        Some(Key::Tab)
    } else if l == "backspace"@ {
        Some(Key::Backspace)
    } else if l == "escape"@ {
        Some(Key::Escape)
    } else if l == "space"@ {
        Some(Key::Space)
    } else if l == "delete"@ {
        Some(Key::Delete)
    } else if l == "insert"@ {
        Some(Key::Insert)
    } else if l == "home"@ {
        Some(Key::Home)
    } else if l == "end"@ {
        Some(Key::End)
    } else if l == "pageup"@ {
        Some(Key::PageUp)
    } else if l == "pagedown"@ {
        Some(Key::PageDown)
    } else if l == "up"@ {
        Some(Key::Up)
    } else if l == "down"@ {
        Some(Key::Down)
    } else if l == "left"@ {
        Some(Key::Left)
    } else if l == "right"@ {
        Some(Key::Right)
    } else if l == "capslock"@ {
        Some(Key::CapsLock)
    } else if l == "numlock"@ {
        Some(Key::NumLock)
    } else if l == "scrolllock"@ {
        Some(Key::ScrollLock)
    } else if l == "printscreen"@ {
        Some(Key::PrintScreen)
    } else if l == "pause"@ {
        Some(Key::Pause)
    } else if l == "menu"@ {
        Some(Key::Menu)
    } else if l == "plus"@ {
        Some(Key::Plus)
    } else if l == "minus"@ {
        Some(Key::Minus)
    } else if l == "comma"@ {
        Some(Key::Comma)
    } else if l == "period"@ {
        Some(Key::Period)
    } else if l == "slash"@ {
        Some(Key::Slash)
    } else if l == "semicolon"@ {
        Some(Key::Semicolon)
    } else if l == "quote"@ {
        Some(Key::Quote)
    } else if l == "backquote"@ {
        Some(Key::Backquote)
    } else if l == "backslash"@ {
        Some(Key::Backslash)
    } else if l == "bracketleft"@ {
        Some(Key::BracketLeft)
    } else if l == "bracketright"@ {
        Some(Key::BracketRight)
    } else if l == "equal"@ {
        Some(Key::Equal)
    } else {
        function_key(l)
    }
}

/// The key a name spells: a single character is that character, and anything else is
/// matched against the key names without regard to ASCII case.
pub open spec fn key_named(s: Seq<char>) -> Option<Key> {
    if s.len() == 1 {
        Some(Key::Char(s[0]))
    } else {
        named_key(ascii_lower_seq(s))
    }
}

impl Key {
    /// The spelling of a key that has a name of its own.
    pub open spec fn spec_word(self) -> Seq<char> {
        match self {
            Key::Enter => "Enter"@,
            Key::Tab => "Tab"@,
            Key::Backspace => "Backspace"@,
            Key::Escape => "Escape"@,
            Key::Space => "Space"@,
            Key::Delete => "Delete"@,
            Key::Insert => "Insert"@,
            Key::Home => "Home"@,
            Key::End => "End"@,
            Key::PageUp => "PageUp"@,
            Key::PageDown => "PageDown"@,
            Key::Up => "Up"@,
            Key::Down => "Down"@,
            Key::Left => "Left"@,
            Key::Right => "Right"@,
            Key::CapsLock => "CapsLock"@,
            Key::NumLock => "NumLock"@,
            Key::ScrollLock => "ScrollLock"@,
            Key::PrintScreen => "PrintScreen"@,
            Key::Pause => "Pause"@,
            Key::Menu => "Menu"@,
            Key::Plus => "Plus"@,
            Key::Minus => "Minus"@,
            Key::Comma => "Comma"@,
            Key::Period => "Period"@,
            Key::Slash => "Slash"@,
            Key::Semicolon => "Semicolon"@,
            Key::Quote => "Quote"@,
            Key::Backquote => "Backquote"@,
            Key::Backslash => "Backslash"@,
            Key::BracketLeft => "BracketLeft"@,
            Key::BracketRight => "BracketRight"@,
            Key::Equal => "Equal"@,
            _ => Seq::empty(),
        }
    }

    /// The key's canonical name: a character names itself, a function key is `F` and its
    /// number, and every other key uses the spelling its variant does.
    pub open spec fn spec_name(self) -> Seq<char> {
        match self {
            Key::Char(c) => seq![c],
            Key::F(n) => seq!['F'] + decimal(n as nat),
            _ => self.spec_word(),
        }
    }

    /// Whether the key is one the vocabulary can name: a function key is F1 to F24.
    pub open spec fn nameable(self) -> bool {
        match self {
            Key::F(n) => 1 <= n <= 24,
            _ => true,
        }
    }

    /// The spelling of a named key, empty for a character or a function key.
    fn word(self) -> (r: &'static str)
        ensures
            r@ == self.spec_word(),
    {
        match self {
            Key::Enter => "Enter",
            Key::Tab => "Tab",
            Key::Backspace => "Backspace",
            Key::Escape => "Escape",
            Key::Space => "Space",
            Key::Delete => "Delete",
            Key::Insert => "Insert",
            Key::Home => "Home",
            Key::End => "End",
            Key::PageUp => "PageUp",
            Key::PageDown => "PageDown",
            Key::Up => "Up",
            Key::Down => "Down",
            Key::Left => "Left",
            Key::Right => "Right",
            Key::CapsLock => "CapsLock",
            Key::NumLock => "NumLock",
            Key::ScrollLock => "ScrollLock",
            Key::PrintScreen => "PrintScreen",
            Key::Pause => "Pause",
            Key::Menu => "Menu",
            Key::Plus => "Plus",
            Key::Minus => "Minus",
            Key::Comma => "Comma",
            Key::Period => "Period",
            Key::Slash => "Slash",
            Key::Semicolon => "Semicolon",
            Key::Quote => "Quote",
            Key::Backquote => "Backquote",
            Key::Backslash => "Backslash",
            Key::BracketLeft => "BracketLeft",
            Key::BracketRight => "BracketRight",
            Key::Equal => "Equal",
            _ => {
                proof {
                    reveal_strlit("");
                }
                ""
            },
        }
    }

    /// The key's canonical name.
    ///
    /// `name` and `from_name` are inverses, so a key written into the config file and read
    /// back is the same key.
    pub fn name(self) -> (r: String)
        ensures
            r@ == self.spec_name(),
    {
        match self {
            Key::Char(c) => {
                let mut v: Vec<char> = Vec::new();
                v.push(c);
                assert(v@ =~= seq![c]);
                string_of(&v)
            },
            Key::F(n) => {
                let mut v: Vec<char> = Vec::new();
                v.push('F');
                push_decimal_chars(&mut v, n as u64);
                assert(v@ =~= seq!['F'] + decimal(n as nat));
                string_of(&v)
            },
            _ => self.word().to_owned(),
        }
    }

    /// The key named by `name`, or `None` if nothing is named that.
    ///
    /// Names are matched without regard to case, and a single character is taken as that
    /// character. Case does not imply Shift.
    pub fn from_name(name: &str) -> (r: Option<Key>)
        ensures
            r == key_named(name@),
    {
        let chars = chars_of(name);
        if chars.len() == 1 {
            return Some(Key::Char(chars[0]));
        }
        key_from_lower(&lower_all(&chars))
    }
}

/// The named key a lowercased name spells.
fn key_from_lower(lowered: &Vec<char>) -> (r: Option<Key>)
    ensures
        r == named_key(lowered@),
{
        if spells(&lowered, "enter") {
            Some(Key::Enter)
        } else if spells(&lowered, "tab") {
            Some(Key::Tab)
        } else if spells(&lowered, "backspace") {
            Some(Key::Backspace)
        } else if spells(&lowered, "escape") {
            Some(Key::Escape)
        } else if spells(&lowered, "space") {
            Some(Key::Space)
        } else if spells(&lowered, "delete") {
            Some(Key::Delete)
        } else if spells(&lowered, "insert") {
            Some(Key::Insert)
        } else if spells(&lowered, "home") {
            Some(Key::Home)
        } else if spells(&lowered, "end") {
            Some(Key::End)
        } else if spells(&lowered, "pageup") {
            Some(Key::PageUp)
        } else if spells(&lowered, "pagedown") {
            Some(Key::PageDown)
        } else if spells(&lowered, "up") {
            Some(Key::Up)
        } else if spells(&lowered, "down") {
            Some(Key::Down)
        } else if spells(&lowered, "left") {
            Some(Key::Left)
        } else if spells(&lowered, "right") {
            Some(Key::Right)
        } else if spells(&lowered, "capslock") {
            Some(Key::CapsLock)
        } else if spells(&lowered, "numlock") {
            Some(Key::NumLock)
        } else if spells(&lowered, "scrolllock") {
            Some(Key::ScrollLock)
        } else if spells(&lowered, "printscreen") {
            Some(Key::PrintScreen)
        } else if spells(&lowered, "pause") {
            Some(Key::Pause)
        } else if spells(&lowered, "menu") {
            Some(Key::Menu)
        } else if spells(&lowered, "plus") {
            Some(Key::Plus)
        } else if spells(&lowered, "minus") {
            Some(Key::Minus)
        } else if spells(&lowered, "comma") {
            Some(Key::Comma)
        } else if spells(&lowered, "period") {
            Some(Key::Period)
        } else if spells(&lowered, "slash") {
            Some(Key::Slash)
        } else if spells(&lowered, "semicolon") {
            Some(Key::Semicolon)
        } else if spells(&lowered, "quote") {
            Some(Key::Quote)
        } else if spells(&lowered, "backquote") {
            Some(Key::Backquote)
        } else if spells(&lowered, "backslash") {
            Some(Key::Backslash)
        } else if spells(&lowered, "bracketleft") {
            Some(Key::BracketLeft)
        } else if spells(&lowered, "bracketright") {
            Some(Key::BracketRight)
        } else if spells(&lowered, "equal") {
            Some(Key::Equal)
        } else {
            read_function_key(&lowered)
        }
}

/// The function key a lowercased name spells.
fn read_function_key(l: &Vec<char>) -> (r: Option<Key>)
    ensures
        r == function_key(l@),
{
    if l.len() == 0 || l[0] != 'f' {
        return None;
    }
    let rest = slice_of(l, 1, l.len());
    assert(rest@ =~= l@.drop_first());
    match read_u8(&rest) {
        Some(n) => if 1 <= n && n <= 24 {
            Some(Key::F(n))
        } else {
            None
        },
        None => None,
    }
}

/// `digits_value`, capped at 256 so that it can be carried in a machine word.
proof fn lemma_capped_step(prefix: Seq<char>, c: char, v: nat)
    requires
        v == if digits_value(prefix) < 256 { digits_value(prefix) } else { 256 },
        is_digit(c),
    ensures
        ({
            let next = digits_value(prefix.push(c));
            let w = v * 10 + ((c as u32) - 48) as nat;
            (if next < 256 { next } else { 256 }) == (if w < 256 { w } else { 256 })
        }),
{
    assert(prefix.push(c).drop_last() =~= prefix);
}

/// A number with a character that is not a digit in it is not a number.
proof fn lemma_not_all_digits(s: Seq<char>, j: int)
    requires
        0 <= j < unsigned_digits(s).len(),
        !is_digit(unsigned_digits(s)[j]),
    ensures
        parse_u8(s) is None,
{
    assert(!all_digits(unsigned_digits(s)));
}

/// A number the way `u8::from_str` reads one.
fn read_u8(s: &Vec<char>) -> (r: Option<u8>)
    ensures
        r == parse_u8(s@),
{
    let start: usize = if s.len() > 0 && s[0] == '+' { 1 } else { 0 };
    let ghost d = unsigned_digits(s@);
    assert(d =~= s@.subrange(start as int, s@.len() as int));
    if start >= s.len() {
        assert(d.len() == 0);
        return None;
    }
    let mut value: u32 = 0;
    let mut i = start;
    while i < s.len()
        invariant
            start <= i <= s.len(),
            d == s@.subrange(start as int, s@.len() as int),
            d == unsigned_digits(s@),
            forall|j: int| 0 <= j < i - start ==> #[trigger] is_digit(d[j]),
            value == (if digits_value(d.take(i - start)) < 256 {
                digits_value(d.take(i - start))
            } else {
                256
            }),
        decreases s.len() - i,
    {
        let c = s[i];
        if c < '0' || c > '9' {
            proof {
                lemma_not_all_digits(s@, (i - start) as int);
            }
            return None;
        }
        proof {
            lemma_capped_step(d.take(i - start), c, value as nat);
            assert(d.take(i - start + 1) =~= d.take(i - start).push(c));
        }
        let w: u32 = value * 10 + ((c as u32) - 48);
        value = if w < 256 { w } else { 256 };
        i += 1;
    }
    assert(d.take(s@.len() - start) =~= d);
    if value <= 255 {
        Some(value as u8)
    } else {
        None
    }
}

/// The modifier a token names, or `None` if it names a key instead.
pub open spec fn modifier_named(token: Seq<char>) -> Option<Modifiers> {
    let l = ascii_lower_seq(token);
    if l == "ctrl"@ {
        Some(Modifiers { shift: false, ctrl: true, alt: false, logo: false })
    } else if l == "shift"@ {
        Some(Modifiers { shift: true, ctrl: false, alt: false, logo: false })
    } else if l == "alt"@ {
        Some(Modifiers { shift: false, ctrl: false, alt: true, logo: false })
    } else if l == "super"@ {
        Some(Modifiers { shift: false, ctrl: false, alt: false, logo: true })
    } else {
        None
    }
}

/// The modifier a token names.
fn read_modifier(token: &Vec<char>) -> (r: Option<Modifiers>)
    ensures
        r == modifier_named(token@),
{
    let l = lower_all(token);
    if spells(&l, "ctrl") {
        Some(Modifiers::ctrl())
    } else if spells(&l, "shift") {
        Some(Modifiers::shift())
    } else if spells(&l, "alt") {
        Some(Modifiers::alt())
    } else if spells(&l, "super") {
        Some(Modifiers::logo())
    } else {
        None
    }
}

/// Where the first `+` of `s` is, or its length when there is none.
pub open spec fn first_plus(s: Seq<char>) -> nat
    decreases s.len(),
{
    if s.len() == 0 || s[0] == '+' {
        0
    } else {
        1 + first_plus(s.drop_first())
    }
}

/// Read modifiers off the front of `s`, one `+`-separated token at a time, for as long as
/// the tokens name modifiers: what they add up to, and the text that is left for the key.
pub open spec fn split_modifiers(s: Seq<char>, held: Modifiers) -> (Modifiers, Seq<char>)
    decreases s.len(),
{
    let i = first_plus(s) as int;
    match modifier_named(trim(s.take(i))) {
        Some(flag) => if i >= s.len() {
            (held.join(flag), Seq::empty())
        } else {
            split_modifiers(s.skip(i + 1), held.join(flag))
        },
        None => (held, s),
    }
}

/// A key together with the modifiers that must be held for it to fire.
#[derive(Clone, Copy, PartialEq, Eq, Hash, Debug, Structural)]
pub struct Chord {
    /// The modifiers that must be held.
    pub mods: Modifiers,
    /// The key that must be pressed.
    pub key: Key,
}

/// A keybinding that could not be read, with the message a user is shown.
#[derive(Debug, Clone, PartialEq, Eq)]
pub struct ParseChordError {
    message: String,
}

impl ParseChordError {
    /// An error with this message.
    fn new(message: String) -> (r: ParseChordError)
        ensures
            r.text() == message@,
    {
        ParseChordError { message }
    }

    /// What the message says.
    pub closed spec fn text(&self) -> Seq<char> {
        self.message@
    }

    /// What was wrong, in the words the user will read.
    pub fn message(&self) -> (r: String)
        ensures
            r@ == self.text(),
    {
        self.message.clone()
    }
}

/// What a chord's text says when it does not name a key.
pub open spec fn parse_error_text(text: Seq<char>, rest: Seq<char>) -> Seq<char> {
    "`"@ + text + "` does not name a key: `"@ + rest + "` is not one"@
}

/// What `Chord::parse` makes of a text: the modifiers off its front, and the key the rest
/// names, trimmed.
pub open spec fn chord_parsed(text: Seq<char>) -> Option<Chord> {
    let (mods, rest) = split_modifiers(text, Modifiers::nothing());
    match key_named(trim(rest)) {
        Some(key) => Some(Chord { mods, key }),
        None => None,
    }
}

/// The display form of a set of modifiers: each held one, in a fixed order, followed by a
/// `+`.
pub open spec fn modifiers_text(m: Modifiers) -> Seq<char> {
    (if m.ctrl { "Ctrl+"@ } else { Seq::empty() }) + (if m.shift { "Shift+"@ } else {
        Seq::empty()
    }) + (if m.alt { "Alt+"@ } else { Seq::empty() }) + (if m.logo { "Super+"@ } else {
        Seq::empty()
    })
}


/// The modifiers written at the front of a chord's text, and where the key's text starts.
fn split_front(v: &Vec<char>) -> (r: (Modifiers, usize))
    ensures
        r.1 <= v.len(),
        split_modifiers(v@, Modifiers::nothing()) == (r.0, v@.skip(r.1 as int)),
{
        let mut mods = Modifiers::empty();
        let mut start: usize = 0;
        assert(v@.skip(0) =~= v@);
        loop
            invariant_except_break
                start <= v.len(),
                split_modifiers(v@, Modifiers::nothing()) == split_modifiers(
                    v@.skip(start as int),
                    mods,
                ),
            ensures
                start <= v.len(),
                split_modifiers(v@, Modifiers::nothing()) == (mods, v@.skip(start as int)),
            decreases v.len() - start,
        {
            let ghost s = v@.skip(start as int);
            let ghost held = mods;
            let mut i = start;
            while i < v.len() && v[i] != '+'
                invariant
                    start <= i <= v.len(),
                    s == v@.skip(start as int),
                    first_plus(s) == first_plus(v@.skip(i as int)) + (i - start),
                decreases v.len() - i,
            {
                assert(v@.skip(i as int).drop_first() =~= v@.skip(i as int + 1));
                i += 1;
            }
            assert(first_plus(v@.skip(i as int)) == 0);
            assert(s.take(i - start) =~= v@.subrange(start as int, i as int));
            let token = trimmed(v, start, i);
            match read_modifier(&token) {
                Some(flag) => {
                    mods = mods.union(flag);
                    if i >= v.len() {
                        assert(split_modifiers(s, held) == (mods, Seq::<char>::empty()));
                        start = v.len();
                        assert(v@.skip(start as int) =~= Seq::<char>::empty());
                        break;
                    } else {
                        assert(s.skip(i - start + 1) =~= v@.skip(i as int + 1));
                        start = i + 1;
                    }
                },
                None => {
                    assert(split_modifiers(s, held) == (held, s));
                    break;
                },
            }
        }
        (mods, start)
}

/// The message for a chord whose key text names nothing.
fn error_text(text: &str, rest: &Vec<char>) -> (r: String)
    ensures
        r@ == parse_error_text(text@, rest@),
{
    let mut m: Vec<char> = Vec::new();
    push_str_chars(&mut m, "`");
    push_str_chars(&mut m, text);
    push_str_chars(&mut m, "` does not name a key: `");
    let mut j: usize = 0;
    while j < rest.len()
        invariant
            j <= rest.len(),
            m@ == "`"@ + text@ + "` does not name a key: `"@ + rest@.take(j as int),
        decreases rest.len() - j,
    {
        m.push(rest[j]);
        assert(m@ =~= "`"@ + text@ + "` does not name a key: `"@ + rest@.take(j as int + 1));
        j += 1;
    }
    assert(rest@.take(rest.len() as int) =~= rest@);
    push_str_chars(&mut m, "` is not one");
    string_of(&m)
}

impl Chord {
    /// The display form: `Ctrl+Shift+T`.
    pub open spec fn spec_text(self) -> Seq<char> {
        modifiers_text(self.mods) + self.key.spec_name()
    }

    /// Read a chord out of its text form.
    ///
    /// Modifiers are `Ctrl`, `Shift`, `Alt` and `Super`, in any order and any case, joined
    /// to each other and to the key by `+`. Everything from the first token that is not a
    /// modifier onwards is taken as the key, so the `+` key itself still works (`Ctrl++`).
    pub fn parse(text: &str) -> (r: Result<Chord, ParseChordError>)
        ensures
            match r {
                Ok(c) => chord_parsed(text@) == Some(c),
                Err(e) => chord_parsed(text@) is None && e.text() == parse_error_text(
                    text@,
                    trim(split_modifiers(text@, Modifiers::nothing()).1),
                ),
            },
    {
        let v = chars_of(text);
        let (mods, start) = split_front(&v);
        let rest = trimmed(&v, start, v.len());
        assert(v@.subrange(start as int, v@.len() as int) =~= v@.skip(start as int));
        match Key::from_name_chars(&rest) {
            Some(key) => Ok(Chord { mods, key }),
            None => Err(ParseChordError::new(error_text(text, &rest))),
        }
    }

    /// Whether this chord is what was just pressed. The comparison is exact, including the
    /// case of a character.
    pub fn matches(&self, mods: Modifiers, key: Key) -> (r: bool)
        ensures
            r == (self.mods == mods && self.key == key),
    {
        self.mods == mods && self.key == key
    }

    /// Renders back to `Ctrl+Shift+T`, with the modifiers in a fixed order whatever order
    /// they were written in.
    pub fn to_string(&self) -> (r: String)
        ensures
            r@ == self.spec_text(),
    {
        let mut v: Vec<char> = Vec::new();
        if self.mods.ctrl {
            push_str_chars(&mut v, "Ctrl+");
        }
        if self.mods.shift {
            push_str_chars(&mut v, "Shift+");
        }
        if self.mods.alt {
            push_str_chars(&mut v, "Alt+");
        }
        if self.mods.logo {
            push_str_chars(&mut v, "Super+");
        }
        let ghost head = v@;
        assert(head =~= modifiers_text(self.mods));
        let name = chars_of(self.key.name().as_str());
        let mut i: usize = 0;
        while i < name.len()
            invariant
                i <= name.len(),
                v@ == head + name@.take(i as int),
            decreases name.len() - i,
        {
            v.push(name[i]);
            assert(v@ =~= head + name@.take(i as int + 1));
            i += 1;
        }
        assert(name@.take(name.len() as int) =~= name@);
        string_of(&v)
    }
}

impl Key {
    /// The key a character sequence names; `from_name` over characters already read.
    fn from_name_chars(chars: &Vec<char>) -> (r: Option<Key>)
        ensures
            r == key_named(chars@),
    {
        if chars.len() == 1 {
            return Some(Key::Char(chars[0]));
        }
        key_from_lower(&lower_all(chars))
    }
}

impl core::str::FromStr for Chord {
    type Err = ParseChordError;

    fn from_str(text: &str) -> (r: Result<Chord, ParseChordError>)
        ensures
            match r {
                Ok(c) => chord_parsed(text@) == Some(c),
                Err(e) => chord_parsed(text@) is None && e.text() == parse_error_text(
                    text@,
                    trim(split_modifiers(text@, Modifiers::nothing()).1),
                ),
            },
    {
        Chord::parse(text)
    }
}

/// `decimal` writes digits only, never starts with `+`, and reads back as the number it
/// wrote.
pub proof fn lemma_decimal_reads_back(n: nat)
    ensures
        decimal(n).len() >= 1,
        all_digits(decimal(n)),
        digits_value(decimal(n)) == n,
        decimal(n)[0] != '+',
        ascii_lower_seq(decimal(n)) == decimal(n),
    decreases n,
{
    if n >= 10 {
        lemma_decimal_reads_back(n / 10);
        let d = decimal(n);
        assert(d.drop_last() =~= decimal(n / 10));
        assert(d.last() == digit_char(n % 10));
        lemma_digit_char_value(n % 10);
        assert(digits_value(d) == digits_value(decimal(n / 10)) * 10 + n % 10);
        assert(n / 10 * 10 + n % 10 == n) by (nonlinear_arith);
        assert(ascii_lower_seq(d) =~= d);
    } else {
        assert(decimal(n).drop_last() =~= Seq::<char>::empty());
        assert(decimal(n).last() == digit_char(n));
        lemma_digit_char_value(n);
        assert(digits_value(decimal(n)) == digits_value(Seq::<char>::empty()) * 10 + n);
        assert(ascii_lower_seq(decimal(n)) =~= decimal(n));
    }
}

/// A digit's character is the ASCII code of the digit.
proof fn lemma_digit_char_value(d: nat)
    requires
        d < 10,
    ensures
        is_digit(digit_char(d)),
        (digit_char(d) as u32 - 48) as nat == d,
        !crate::spell::is_ascii_upper(digit_char(d)),
{
}

/// The number of a function key reads back through `u8::from_str`.
proof fn lemma_function_number(n: u8)
    ensures
        parse_u8(decimal(n as nat)) == Some(n),
{
    lemma_decimal_reads_back(n as nat);
}

/// A word a chord's text cannot mistake for anything else: no `+` in it, no white space
/// at either end, more than one character, and not a modifier's name.
pub open spec fn plain_word(w: Seq<char>) -> bool {
    &&& w.len() > 1
    &&& forall|i: int| 0 <= i < w.len() ==> #[trigger] w[i] != '+'
    &&& !crate::spell::is_space(w[0])
    &&& !crate::spell::is_space(w.last())
    &&& modifier_named(w) is None
}

/// A character names itself and is read back as itself.
proof fn lemma_char_name_round_trips(c: char)
    ensures
        key_named(Key::Char(c).spec_name()) == Some(Key::Char(c)),
{
    assert(Key::Char(c).spec_name() =~= seq![c]);
}

/// A function key from F1 to F24 is read back from its name.
proof fn lemma_function_name_round_trips(n: u8)
    requires
        1 <= n <= 24,
    ensures
        key_named(Key::F(n).spec_name()) == Some(Key::F(n)),
{
        reveal_strlit("Enter");
        reveal_strlit("Tab");
        reveal_strlit("Backspace");
        reveal_strlit("Escape");
        reveal_strlit("Space");
        reveal_strlit("Delete");
        reveal_strlit("Insert");
        reveal_strlit("Home");
        reveal_strlit("End");
        reveal_strlit("PageUp");
        reveal_strlit("PageDown");
        reveal_strlit("Up");
        reveal_strlit("Down");
        reveal_strlit("Left");
        reveal_strlit("Right");
        reveal_strlit("CapsLock");
        reveal_strlit("NumLock");
        reveal_strlit("ScrollLock");
        reveal_strlit("PrintScreen");
        reveal_strlit("Pause");
        reveal_strlit("Menu");
        reveal_strlit("Plus");
        reveal_strlit("Minus");
        reveal_strlit("Comma");
        reveal_strlit("Period");
        reveal_strlit("Slash");
        reveal_strlit("Semicolon");
        reveal_strlit("Quote");
        reveal_strlit("Backquote");
        reveal_strlit("Backslash");
        reveal_strlit("BracketLeft");
        reveal_strlit("BracketRight");
        reveal_strlit("Equal");
        reveal_strlit("enter");
        reveal_strlit("tab");
        reveal_strlit("backspace");
        reveal_strlit("escape");
        reveal_strlit("space");
        reveal_strlit("delete");
        reveal_strlit("insert");
        reveal_strlit("home");
        reveal_strlit("end");
        reveal_strlit("pageup");
        reveal_strlit("pagedown");
        reveal_strlit("up");
        reveal_strlit("down");
        reveal_strlit("left");
        reveal_strlit("right");
        reveal_strlit("capslock");
        reveal_strlit("numlock");
        reveal_strlit("scrolllock");
        reveal_strlit("printscreen");
        reveal_strlit("pause");
        reveal_strlit("menu");
        reveal_strlit("plus");
        reveal_strlit("minus");
        reveal_strlit("comma");
        reveal_strlit("period");
        reveal_strlit("slash");
        reveal_strlit("semicolon");
        reveal_strlit("quote");
        reveal_strlit("backquote");
        reveal_strlit("backslash");
        reveal_strlit("bracketleft");
        reveal_strlit("bracketright");
        reveal_strlit("equal");

    let s = Key::F(n).spec_name();
    let l = ascii_lower_seq(s);
    lemma_decimal_reads_back(n as nat);
    lemma_function_number(n);
    assert(s.len() >= 2);
    assert(l[0] == 'f');
    assert(l.drop_first() =~= ascii_lower_seq(decimal(n as nat)));
    assert(named_key(l) == function_key(l));
}

/// `Enter` is read back from its name.
proof fn lemma_enter_round_trips()
    ensures
        key_named(Key::Enter.spec_name()) == Some(Key::Enter),
        plain_word(Key::Enter.spec_word()),
{
    reveal_strlit("ctrl");
    reveal_strlit("shift");
    reveal_strlit("alt");
    reveal_strlit("super");
    reveal_strlit("Enter");
    reveal_strlit("enter");
    assert(ascii_lower_seq("Enter"@) =~= "enter"@);
    assert("enter"@[0] != "shift"@[0]);
    assert("enter"@[0] != "super"@[0]);
}

/// `Tab` is read back from its name.
proof fn lemma_tab_round_trips()
    ensures
        key_named(Key::Tab.spec_name()) == Some(Key::Tab),
        plain_word(Key::Tab.spec_word()),
{
    reveal_strlit("ctrl");
    reveal_strlit("shift");
    reveal_strlit("alt");
    reveal_strlit("super");
    reveal_strlit("Tab");
    reveal_strlit("enter");
    reveal_strlit("tab");
    assert(ascii_lower_seq("Tab"@) =~= "tab"@);
    assert("tab"@[0] != "alt"@[0]);
}

/// `Backspace` is read back from its name.
proof fn lemma_backspace_round_trips()
    ensures
        key_named(Key::Backspace.spec_name()) == Some(Key::Backspace),
        plain_word(Key::Backspace.spec_word()),
{
    reveal_strlit("ctrl");
    reveal_strlit("shift");
    reveal_strlit("alt");
    reveal_strlit("super");
    reveal_strlit("Backspace");
    reveal_strlit("enter");
    reveal_strlit("tab");
    reveal_strlit("backspace");
    assert(ascii_lower_seq("Backspace"@) =~= "backspace"@);
}

/// `Escape` is read back from its name.
proof fn lemma_escape_round_trips()
    ensures
        key_named(Key::Escape.spec_name()) == Some(Key::Escape),
        plain_word(Key::Escape.spec_word()),
{
    reveal_strlit("ctrl");
    reveal_strlit("shift");
    reveal_strlit("alt");
    reveal_strlit("super");
    reveal_strlit("Escape");
    reveal_strlit("enter");
    reveal_strlit("tab");
    reveal_strlit("backspace");
    reveal_strlit("escape");
    assert(ascii_lower_seq("Escape"@) =~= "escape"@);
}

/// `Space` is read back from its name.
proof fn lemma_space_round_trips()
    ensures
        key_named(Key::Space.spec_name()) == Some(Key::Space),
        plain_word(Key::Space.spec_word()),
{
    reveal_strlit("ctrl");
    reveal_strlit("shift");
    reveal_strlit("alt");
    reveal_strlit("super");
    reveal_strlit("Space");
    reveal_strlit("enter");
    reveal_strlit("tab");
    reveal_strlit("backspace");
    reveal_strlit("escape");
    reveal_strlit("space");
    assert(ascii_lower_seq("Space"@) =~= "space"@);
    assert("space"@[1] != "shift"@[1]);
    assert("space"@[1] != "super"@[1]);
    assert("space"@[0] != "enter"@[0]);
}

/// `Delete` is read back from its name.
proof fn lemma_delete_round_trips()
    ensures
        key_named(Key::Delete.spec_name()) == Some(Key::Delete),
        plain_word(Key::Delete.spec_word()),
{
    reveal_strlit("ctrl");
    reveal_strlit("shift");
    reveal_strlit("alt");
    reveal_strlit("super");
    reveal_strlit("Delete");
    reveal_strlit("enter");
    reveal_strlit("tab");
    reveal_strlit("backspace");
    reveal_strlit("escape");
    reveal_strlit("space");
    reveal_strlit("delete");
    assert(ascii_lower_seq("Delete"@) =~= "delete"@);
    assert("delete"@[0] != "escape"@[0]);
}

/// `Insert` is read back from its name.
proof fn lemma_insert_round_trips()
    ensures
        key_named(Key::Insert.spec_name()) == Some(Key::Insert),
        plain_word(Key::Insert.spec_word()),
{
    reveal_strlit("ctrl");
    reveal_strlit("shift");
    reveal_strlit("alt");
    reveal_strlit("super");
    reveal_strlit("Insert");
    reveal_strlit("enter");
    reveal_strlit("tab");
    reveal_strlit("backspace");
    reveal_strlit("escape");
    reveal_strlit("space");
    reveal_strlit("delete");
    reveal_strlit("insert");
    assert(ascii_lower_seq("Insert"@) =~= "insert"@);
    assert("insert"@[0] != "escape"@[0]);
    assert("insert"@[0] != "delete"@[0]);
}

/// `Home` is read back from its name.
proof fn lemma_home_round_trips()
    ensures
        key_named(Key::Home.spec_name()) == Some(Key::Home),
        plain_word(Key::Home.spec_word()),
{
    reveal_strlit("ctrl");
    reveal_strlit("shift");
    reveal_strlit("alt");
    reveal_strlit("super");
    reveal_strlit("Home");
    reveal_strlit("enter");
    reveal_strlit("tab");
    reveal_strlit("backspace");
    reveal_strlit("escape");
    reveal_strlit("space");
    reveal_strlit("delete");
    reveal_strlit("insert");
    reveal_strlit("home");
    assert(ascii_lower_seq("Home"@) =~= "home"@);
    assert("home"@[0] != "ctrl"@[0]);
}

/// `End` is read back from its name.
proof fn lemma_end_round_trips()
    ensures
        key_named(Key::End.spec_name()) == Some(Key::End),
        plain_word(Key::End.spec_word()),
{
    reveal_strlit("ctrl");
    reveal_strlit("shift");
    reveal_strlit("alt");
    reveal_strlit("super");
    reveal_strlit("End");
    reveal_strlit("enter");
    reveal_strlit("tab");
    reveal_strlit("backspace");
    reveal_strlit("escape");
    reveal_strlit("space");
    reveal_strlit("delete");
    reveal_strlit("insert");
    reveal_strlit("home");
    reveal_strlit("end");
    assert(ascii_lower_seq("End"@) =~= "end"@);
    assert("end"@[0] != "alt"@[0]);
    assert("end"@[0] != "tab"@[0]);
}

/// `PageUp` is read back from its name.
proof fn lemma_page_up_round_trips()
    ensures
        key_named(Key::PageUp.spec_name()) == Some(Key::PageUp),
        plain_word(Key::PageUp.spec_word()),
{
    reveal_strlit("ctrl");
    reveal_strlit("shift");
    reveal_strlit("alt");
    reveal_strlit("super");
    reveal_strlit("PageUp");
    reveal_strlit("enter");
    reveal_strlit("tab");
    reveal_strlit("backspace");
    reveal_strlit("escape");
    reveal_strlit("space");
    reveal_strlit("delete");
    reveal_strlit("insert");
    reveal_strlit("home");
    reveal_strlit("end");
    reveal_strlit("pageup");
    assert(ascii_lower_seq("PageUp"@) =~= "pageup"@);
    assert("pageup"@[0] != "escape"@[0]);
    assert("pageup"@[0] != "delete"@[0]);
    assert("pageup"@[0] != "insert"@[0]);
}

/// `PageDown` is read back from its name.
proof fn lemma_page_down_round_trips()
    ensures
        key_named(Key::PageDown.spec_name()) == Some(Key::PageDown),
        plain_word(Key::PageDown.spec_word()),
{
    reveal_strlit("ctrl");
    reveal_strlit("shift");
    reveal_strlit("alt");
    reveal_strlit("super");
    reveal_strlit("PageDown");
    reveal_strlit("enter");
    reveal_strlit("tab");
    reveal_strlit("backspace");
    reveal_strlit("escape");
    reveal_strlit("space");
    reveal_strlit("delete");
    reveal_strlit("insert");
    reveal_strlit("home");
    reveal_strlit("end");
    reveal_strlit("pageup");
    reveal_strlit("pagedown");
    assert(ascii_lower_seq("PageDown"@) =~= "pagedown"@);
}

/// `Up` is read back from its name.
proof fn lemma_up_round_trips()
    ensures
        key_named(Key::Up.spec_name()) == Some(Key::Up),
        plain_word(Key::Up.spec_word()),
{
    reveal_strlit("ctrl");
    reveal_strlit("shift");
    reveal_strlit("alt");
    reveal_strlit("super");
    reveal_strlit("Up");
    reveal_strlit("enter");
    reveal_strlit("tab");
    reveal_strlit("backspace");
    reveal_strlit("escape");
    reveal_strlit("space");
    reveal_strlit("delete");
    reveal_strlit("insert");
    reveal_strlit("home");
    reveal_strlit("end");
    reveal_strlit("pageup");
    reveal_strlit("pagedown");
    reveal_strlit("up");
    assert(ascii_lower_seq("Up"@) =~= "up"@);
}

/// `Down` is read back from its name.
proof fn lemma_down_round_trips()
    ensures
        key_named(Key::Down.spec_name()) == Some(Key::Down),
        plain_word(Key::Down.spec_word()),
{
    reveal_strlit("ctrl");
    reveal_strlit("shift");
    reveal_strlit("alt");
    reveal_strlit("super");
    reveal_strlit("Down");
    reveal_strlit("enter");
    reveal_strlit("tab");
    reveal_strlit("backspace");
    reveal_strlit("escape");
    reveal_strlit("space");
    reveal_strlit("delete");
    reveal_strlit("insert");
    reveal_strlit("home");
    reveal_strlit("end");
    reveal_strlit("pageup");
    reveal_strlit("pagedown");
    reveal_strlit("up");
    reveal_strlit("down");
    assert(ascii_lower_seq("Down"@) =~= "down"@);
    assert("down"@[0] != "ctrl"@[0]);
    assert("down"@[0] != "home"@[0]);
}

/// `Left` is read back from its name.
proof fn lemma_left_round_trips()
    ensures
        key_named(Key::Left.spec_name()) == Some(Key::Left),
        plain_word(Key::Left.spec_word()),
{
    reveal_strlit("ctrl");
    reveal_strlit("shift");
    reveal_strlit("alt");
    reveal_strlit("super");
    reveal_strlit("Left");
    reveal_strlit("enter");
    reveal_strlit("tab");
    reveal_strlit("backspace");
    reveal_strlit("escape");
    reveal_strlit("space");
    reveal_strlit("delete");
    reveal_strlit("insert");
    reveal_strlit("home");
    reveal_strlit("end");
    reveal_strlit("pageup");
    reveal_strlit("pagedown");
    reveal_strlit("up");
    reveal_strlit("down");
    reveal_strlit("left");
    assert(ascii_lower_seq("Left"@) =~= "left"@);
    assert("left"@[0] != "ctrl"@[0]);
    assert("left"@[0] != "home"@[0]);
    assert("left"@[0] != "down"@[0]);
}

/// `Right` is read back from its name.
proof fn lemma_right_round_trips()
    ensures
        key_named(Key::Right.spec_name()) == Some(Key::Right),
        plain_word(Key::Right.spec_word()),
{
    reveal_strlit("ctrl");
    reveal_strlit("shift");
    reveal_strlit("alt");
    reveal_strlit("super");
    reveal_strlit("Right");
    reveal_strlit("enter");
    reveal_strlit("tab");
    reveal_strlit("backspace");
    reveal_strlit("escape");
    reveal_strlit("space");
    reveal_strlit("delete");
    reveal_strlit("insert");
    reveal_strlit("home");
    reveal_strlit("end");
    reveal_strlit("pageup");
    reveal_strlit("pagedown");
    reveal_strlit("up");
    reveal_strlit("down");
    reveal_strlit("left");
    reveal_strlit("right");
    assert(ascii_lower_seq("Right"@) =~= "right"@);
    assert("right"@[0] != "shift"@[0]);
    assert("right"@[0] != "super"@[0]);
    assert("right"@[0] != "enter"@[0]);
    assert("right"@[0] != "space"@[0]);
}

/// `CapsLock` is read back from its name.
proof fn lemma_caps_lock_round_trips()
    ensures
        key_named(Key::CapsLock.spec_name()) == Some(Key::CapsLock),
        plain_word(Key::CapsLock.spec_word()),
{
    reveal_strlit("ctrl");
    reveal_strlit("shift");
    reveal_strlit("alt");
    reveal_strlit("super");
    reveal_strlit("CapsLock");
    reveal_strlit("enter");
    reveal_strlit("tab");
    reveal_strlit("backspace");
    reveal_strlit("escape");
    reveal_strlit("space");
    reveal_strlit("delete");
    reveal_strlit("insert");
    reveal_strlit("home");
    reveal_strlit("end");
    reveal_strlit("pageup");
    reveal_strlit("pagedown");
    reveal_strlit("up");
    reveal_strlit("down");
    reveal_strlit("left");
    reveal_strlit("right");
    reveal_strlit("capslock");
    assert(ascii_lower_seq("CapsLock"@) =~= "capslock"@);
    assert("capslock"@[0] != "pagedown"@[0]);
}

/// `NumLock` is read back from its name.
proof fn lemma_num_lock_round_trips()
    ensures
        key_named(Key::NumLock.spec_name()) == Some(Key::NumLock),
        plain_word(Key::NumLock.spec_word()),
{
    reveal_strlit("ctrl");
    reveal_strlit("shift");
    reveal_strlit("alt");
    reveal_strlit("super");
    reveal_strlit("NumLock");
    reveal_strlit("enter");
    reveal_strlit("tab");
    reveal_strlit("backspace");
    reveal_strlit("escape");
    reveal_strlit("space");
    reveal_strlit("delete");
    reveal_strlit("insert");
    reveal_strlit("home");
    reveal_strlit("end");
    reveal_strlit("pageup");
    reveal_strlit("pagedown");
    reveal_strlit("up");
    reveal_strlit("down");
    reveal_strlit("left");
    reveal_strlit("right");
    reveal_strlit("capslock");
    reveal_strlit("numlock");
    assert(ascii_lower_seq("NumLock"@) =~= "numlock"@);
}

/// `ScrollLock` is read back from its name.
proof fn lemma_scroll_lock_round_trips()
    ensures
        key_named(Key::ScrollLock.spec_name()) == Some(Key::ScrollLock),
        plain_word(Key::ScrollLock.spec_word()),
{
    reveal_strlit("ctrl");
    reveal_strlit("shift");
    reveal_strlit("alt");
    reveal_strlit("super");
    reveal_strlit("ScrollLock");
    reveal_strlit("enter");
    reveal_strlit("tab");
    reveal_strlit("backspace");
    reveal_strlit("escape");
    reveal_strlit("space");
    reveal_strlit("delete");
    reveal_strlit("insert");
    reveal_strlit("home");
    reveal_strlit("end");
    reveal_strlit("pageup");
    reveal_strlit("pagedown");
    reveal_strlit("up");
    reveal_strlit("down");
    reveal_strlit("left");
    reveal_strlit("right");
    reveal_strlit("capslock");
    reveal_strlit("numlock");
    reveal_strlit("scrolllock");
    assert(ascii_lower_seq("ScrollLock"@) =~= "scrolllock"@);
}

/// `PrintScreen` is read back from its name.
proof fn lemma_print_screen_round_trips()
    ensures
        key_named(Key::PrintScreen.spec_name()) == Some(Key::PrintScreen),
        plain_word(Key::PrintScreen.spec_word()),
{
    reveal_strlit("ctrl");
    reveal_strlit("shift");
    reveal_strlit("alt");
    reveal_strlit("super");
    reveal_strlit("PrintScreen");
    reveal_strlit("enter");
    reveal_strlit("tab");
    reveal_strlit("backspace");
    reveal_strlit("escape");
    reveal_strlit("space");
    reveal_strlit("delete");
    reveal_strlit("insert");
    reveal_strlit("home");
    reveal_strlit("end");
    reveal_strlit("pageup");
    reveal_strlit("pagedown");
    reveal_strlit("up");
    reveal_strlit("down");
    reveal_strlit("left");
    reveal_strlit("right");
    reveal_strlit("capslock");
    reveal_strlit("numlock");
    reveal_strlit("scrolllock");
    reveal_strlit("printscreen");
    assert(ascii_lower_seq("PrintScreen"@) =~= "printscreen"@);
}

/// `Pause` is read back from its name.
proof fn lemma_pause_round_trips()
    ensures
        key_named(Key::Pause.spec_name()) == Some(Key::Pause),
        plain_word(Key::Pause.spec_word()),
{
    reveal_strlit("ctrl");
    reveal_strlit("shift");
    reveal_strlit("alt");
    reveal_strlit("super");
    reveal_strlit("Pause");
    reveal_strlit("enter");
    reveal_strlit("tab");
    reveal_strlit("backspace");
    reveal_strlit("escape");
    reveal_strlit("space");
    reveal_strlit("delete");
    reveal_strlit("insert");
    reveal_strlit("home");
    reveal_strlit("end");
    reveal_strlit("pageup");
    reveal_strlit("pagedown");
    reveal_strlit("up");
    reveal_strlit("down");
    reveal_strlit("left");
    reveal_strlit("right");
    reveal_strlit("capslock");
    reveal_strlit("numlock");
    reveal_strlit("scrolllock");
    reveal_strlit("printscreen");
    reveal_strlit("pause");
    assert(ascii_lower_seq("Pause"@) =~= "pause"@);
    assert("pause"@[0] != "shift"@[0]);
    assert("pause"@[0] != "super"@[0]);
    assert("pause"@[0] != "enter"@[0]);
    assert("pause"@[0] != "space"@[0]);
    assert("pause"@[0] != "right"@[0]);
}

/// `Menu` is read back from its name.
proof fn lemma_menu_round_trips()
    ensures
        key_named(Key::Menu.spec_name()) == Some(Key::Menu),
        plain_word(Key::Menu.spec_word()),
{
    reveal_strlit("ctrl");
    reveal_strlit("shift");
    reveal_strlit("alt");
    reveal_strlit("super");
    reveal_strlit("Menu");
    reveal_strlit("enter");
    reveal_strlit("tab");
    reveal_strlit("backspace");
    reveal_strlit("escape");
    reveal_strlit("space");
    reveal_strlit("delete");
    reveal_strlit("insert");
    reveal_strlit("home");
    reveal_strlit("end");
    reveal_strlit("pageup");
    reveal_strlit("pagedown");
    reveal_strlit("up");
    reveal_strlit("down");
    reveal_strlit("left");
    reveal_strlit("right");
    reveal_strlit("capslock");
    reveal_strlit("numlock");
    reveal_strlit("scrolllock");
    reveal_strlit("printscreen");
    reveal_strlit("pause");
    reveal_strlit("menu");
    assert(ascii_lower_seq("Menu"@) =~= "menu"@);
    assert("menu"@[0] != "ctrl"@[0]);
    assert("menu"@[0] != "home"@[0]);
    assert("menu"@[0] != "down"@[0]);
    assert("menu"@[0] != "left"@[0]);
}

/// `Plus` is read back from its name.
proof fn lemma_plus_round_trips()
    ensures
        key_named(Key::Plus.spec_name()) == Some(Key::Plus),
        plain_word(Key::Plus.spec_word()),
{
    reveal_strlit("ctrl");
    reveal_strlit("shift");
    reveal_strlit("alt");
    reveal_strlit("super");
    reveal_strlit("Plus");
    reveal_strlit("enter");
    reveal_strlit("tab");
    reveal_strlit("backspace");
    reveal_strlit("escape");
    reveal_strlit("space");
    reveal_strlit("delete");
    reveal_strlit("insert");
    reveal_strlit("home");
    reveal_strlit("end");
    reveal_strlit("pageup");
    reveal_strlit("pagedown");
    reveal_strlit("up");
    reveal_strlit("down");
    reveal_strlit("left");
    reveal_strlit("right");
    reveal_strlit("capslock");
    reveal_strlit("numlock");
    reveal_strlit("scrolllock");
    reveal_strlit("printscreen");
    reveal_strlit("pause");
    reveal_strlit("menu");
    reveal_strlit("plus");
    assert(ascii_lower_seq("Plus"@) =~= "plus"@);
    assert("plus"@[0] != "ctrl"@[0]);
    assert("plus"@[0] != "home"@[0]);
    assert("plus"@[0] != "down"@[0]);
    assert("plus"@[0] != "left"@[0]);
    assert("plus"@[0] != "menu"@[0]);
}

/// `Minus` is read back from its name.
proof fn lemma_minus_round_trips()
    ensures
        key_named(Key::Minus.spec_name()) == Some(Key::Minus),
        plain_word(Key::Minus.spec_word()),
{
    reveal_strlit("ctrl");
    reveal_strlit("shift");
    reveal_strlit("alt");
    reveal_strlit("super");
    reveal_strlit("Minus");
    reveal_strlit("enter");
    reveal_strlit("tab");
    reveal_strlit("backspace");
    reveal_strlit("escape");
    reveal_strlit("space");
    reveal_strlit("delete");
    reveal_strlit("insert");
    reveal_strlit("home");
    reveal_strlit("end");
    reveal_strlit("pageup");
    reveal_strlit("pagedown");
    reveal_strlit("up");
    reveal_strlit("down");
    reveal_strlit("left");
    reveal_strlit("right");
    reveal_strlit("capslock");
    reveal_strlit("numlock");
    reveal_strlit("scrolllock");
    reveal_strlit("printscreen");
    reveal_strlit("pause");
    reveal_strlit("menu");
    reveal_strlit("plus");
    reveal_strlit("minus");
    assert(ascii_lower_seq("Minus"@) =~= "minus"@);
    assert("minus"@[0] != "shift"@[0]);
    assert("minus"@[0] != "super"@[0]);
    assert("minus"@[0] != "enter"@[0]);
    assert("minus"@[0] != "space"@[0]);
    assert("minus"@[0] != "right"@[0]);
    assert("minus"@[0] != "pause"@[0]);
}

/// `Comma` is read back from its name.
proof fn lemma_comma_round_trips()
    ensures
        key_named(Key::Comma.spec_name()) == Some(Key::Comma),
        plain_word(Key::Comma.spec_word()),
{
    reveal_strlit("ctrl");
    reveal_strlit("shift");
    reveal_strlit("alt");
    reveal_strlit("super");
    reveal_strlit("Comma");
    reveal_strlit("enter");
    reveal_strlit("tab");
    reveal_strlit("backspace");
    reveal_strlit("escape");
    reveal_strlit("space");
    reveal_strlit("delete");
    reveal_strlit("insert");
    reveal_strlit("home");
    reveal_strlit("end");
    reveal_strlit("pageup");
    reveal_strlit("pagedown");
    reveal_strlit("up");
    reveal_strlit("down");
    reveal_strlit("left");
    reveal_strlit("right");
    reveal_strlit("capslock");
    reveal_strlit("numlock");
    reveal_strlit("scrolllock");
    reveal_strlit("printscreen");
    reveal_strlit("pause");
    reveal_strlit("menu");
    reveal_strlit("plus");
    reveal_strlit("minus");
    reveal_strlit("comma");
    assert(ascii_lower_seq("Comma"@) =~= "comma"@);
    assert("comma"@[0] != "shift"@[0]);
    assert("comma"@[0] != "super"@[0]);
    assert("comma"@[0] != "enter"@[0]);
    assert("comma"@[0] != "space"@[0]);
    assert("comma"@[0] != "right"@[0]);
    assert("comma"@[0] != "pause"@[0]);
    assert("comma"@[0] != "minus"@[0]);
}

/// `Period` is read back from its name.
proof fn lemma_period_round_trips()
    ensures
        key_named(Key::Period.spec_name()) == Some(Key::Period),
        plain_word(Key::Period.spec_word()),
{
    reveal_strlit("ctrl");
    reveal_strlit("shift");
    reveal_strlit("alt");
    reveal_strlit("super");
    reveal_strlit("Period");
    reveal_strlit("enter");
    reveal_strlit("tab");
    reveal_strlit("backspace");
    reveal_strlit("escape");
    reveal_strlit("space");
    reveal_strlit("delete");
    reveal_strlit("insert");
    reveal_strlit("home");
    reveal_strlit("end");
    reveal_strlit("pageup");
    reveal_strlit("pagedown");
    reveal_strlit("up");
    reveal_strlit("down");
    reveal_strlit("left");
    reveal_strlit("right");
    reveal_strlit("capslock");
    reveal_strlit("numlock");
    reveal_strlit("scrolllock");
    reveal_strlit("printscreen");
    reveal_strlit("pause");
    reveal_strlit("menu");
    reveal_strlit("plus");
    reveal_strlit("minus");
    reveal_strlit("comma");
    reveal_strlit("period");
    assert(ascii_lower_seq("Period"@) =~= "period"@);
    assert("period"@[0] != "escape"@[0]);
    assert("period"@[0] != "delete"@[0]);
    assert("period"@[0] != "insert"@[0]);
    assert("period"@[1] != "pageup"@[1]);
}

/// `Slash` is read back from its name.
proof fn lemma_slash_round_trips()
    ensures
        key_named(Key::Slash.spec_name()) == Some(Key::Slash),
        plain_word(Key::Slash.spec_word()),
{
    reveal_strlit("ctrl");
    reveal_strlit("shift");
    reveal_strlit("alt");
    reveal_strlit("super");
    reveal_strlit("Slash");
    reveal_strlit("enter");
    reveal_strlit("tab");
    reveal_strlit("backspace");
    reveal_strlit("escape");
    reveal_strlit("space");
    reveal_strlit("delete");
    reveal_strlit("insert");
    reveal_strlit("home");
    reveal_strlit("end");
    reveal_strlit("pageup");
    reveal_strlit("pagedown");
    reveal_strlit("up");
    reveal_strlit("down");
    reveal_strlit("left");
    reveal_strlit("right");
    reveal_strlit("capslock");
    reveal_strlit("numlock");
    reveal_strlit("scrolllock");
    reveal_strlit("printscreen");
    reveal_strlit("pause");
    reveal_strlit("menu");
    reveal_strlit("plus");
    reveal_strlit("minus");
    reveal_strlit("comma");
    reveal_strlit("period");
    reveal_strlit("slash");
    assert(ascii_lower_seq("Slash"@) =~= "slash"@);
    assert("slash"@[1] != "shift"@[1]);
    assert("slash"@[1] != "super"@[1]);
    assert("slash"@[0] != "enter"@[0]);
    assert("slash"@[1] != "space"@[1]);
    assert("slash"@[0] != "right"@[0]);
    assert("slash"@[0] != "pause"@[0]);
    assert("slash"@[0] != "minus"@[0]);
    assert("slash"@[0] != "comma"@[0]);
}

/// `Semicolon` is read back from its name.
proof fn lemma_semicolon_round_trips()
    ensures
        key_named(Key::Semicolon.spec_name()) == Some(Key::Semicolon),
        plain_word(Key::Semicolon.spec_word()),
{
    reveal_strlit("ctrl");
    reveal_strlit("shift");
    reveal_strlit("alt");
    reveal_strlit("super");
    reveal_strlit("Semicolon");
    reveal_strlit("enter");
    reveal_strlit("tab");
    reveal_strlit("backspace");
    reveal_strlit("escape");
    reveal_strlit("space");
    reveal_strlit("delete");
    reveal_strlit("insert");
    reveal_strlit("home");
    reveal_strlit("end");
    reveal_strlit("pageup");
    reveal_strlit("pagedown");
    reveal_strlit("up");
    reveal_strlit("down");
    reveal_strlit("left");
    reveal_strlit("right");
    reveal_strlit("capslock");
    reveal_strlit("numlock");
    reveal_strlit("scrolllock");
    reveal_strlit("printscreen");
    reveal_strlit("pause");
    reveal_strlit("menu");
    reveal_strlit("plus");
    reveal_strlit("minus");
    reveal_strlit("comma");
    reveal_strlit("period");
    reveal_strlit("slash");
    reveal_strlit("semicolon");
    assert(ascii_lower_seq("Semicolon"@) =~= "semicolon"@);
    assert("semicolon"@[0] != "backspace"@[0]);
}

/// `Quote` is read back from its name.
proof fn lemma_quote_round_trips()
    ensures
        key_named(Key::Quote.spec_name()) == Some(Key::Quote),
        plain_word(Key::Quote.spec_word()),
{
    reveal_strlit("ctrl");
    reveal_strlit("shift");
    reveal_strlit("alt");
    reveal_strlit("super");
    reveal_strlit("Quote");
    reveal_strlit("enter");
    reveal_strlit("tab");
    reveal_strlit("backspace");
    reveal_strlit("escape");
    reveal_strlit("space");
    reveal_strlit("delete");
    reveal_strlit("insert");
    reveal_strlit("home");
    reveal_strlit("end");
    reveal_strlit("pageup");
    reveal_strlit("pagedown");
    reveal_strlit("up");
    reveal_strlit("down");
    reveal_strlit("left");
    reveal_strlit("right");
    reveal_strlit("capslock");
    reveal_strlit("numlock");
    reveal_strlit("scrolllock");
    reveal_strlit("printscreen");
    reveal_strlit("pause");
    reveal_strlit("menu");
    reveal_strlit("plus");
    reveal_strlit("minus");
    reveal_strlit("comma");
    reveal_strlit("period");
    reveal_strlit("slash");
    reveal_strlit("semicolon");
    reveal_strlit("quote");
    assert(ascii_lower_seq("Quote"@) =~= "quote"@);
    assert("quote"@[0] != "shift"@[0]);
    assert("quote"@[0] != "super"@[0]);
    assert("quote"@[0] != "enter"@[0]);
    assert("quote"@[0] != "space"@[0]);
    assert("quote"@[0] != "right"@[0]);
    assert("quote"@[0] != "pause"@[0]);
    assert("quote"@[0] != "minus"@[0]);
    assert("quote"@[0] != "comma"@[0]);
    assert("quote"@[0] != "slash"@[0]);
}

/// `Backquote` is read back from its name.
proof fn lemma_backquote_round_trips()
    ensures
        key_named(Key::Backquote.spec_name()) == Some(Key::Backquote),
        plain_word(Key::Backquote.spec_word()),
{
    reveal_strlit("ctrl");
    reveal_strlit("shift");
    reveal_strlit("alt");
    reveal_strlit("super");
    reveal_strlit("Backquote");
    reveal_strlit("enter");
    reveal_strlit("tab");
    reveal_strlit("backspace");
    reveal_strlit("escape");
    reveal_strlit("space");
    reveal_strlit("delete");
    reveal_strlit("insert");
    reveal_strlit("home");
    reveal_strlit("end");
    reveal_strlit("pageup");
    reveal_strlit("pagedown");
    reveal_strlit("up");
    reveal_strlit("down");
    reveal_strlit("left");
    reveal_strlit("right");
    reveal_strlit("capslock");
    reveal_strlit("numlock");
    reveal_strlit("scrolllock");
    reveal_strlit("printscreen");
    reveal_strlit("pause");
    reveal_strlit("menu");
    reveal_strlit("plus");
    reveal_strlit("minus");
    reveal_strlit("comma");
    reveal_strlit("period");
    reveal_strlit("slash");
    reveal_strlit("semicolon");
    reveal_strlit("quote");
    reveal_strlit("backquote");
    assert(ascii_lower_seq("Backquote"@) =~= "backquote"@);
    assert("backquote"@[4] != "backspace"@[4]);
    assert("backquote"@[0] != "semicolon"@[0]);
}

/// `Backslash` is read back from its name.
proof fn lemma_backslash_round_trips()
    ensures
        key_named(Key::Backslash.spec_name()) == Some(Key::Backslash),
        plain_word(Key::Backslash.spec_word()),
{
    reveal_strlit("ctrl");
    reveal_strlit("shift");
    reveal_strlit("alt");
    reveal_strlit("super");
    reveal_strlit("Backslash");
    reveal_strlit("enter");
    reveal_strlit("tab");
    reveal_strlit("backspace");
    reveal_strlit("escape");
    reveal_strlit("space");
    reveal_strlit("delete");
    reveal_strlit("insert");
    reveal_strlit("home");
    reveal_strlit("end");
    reveal_strlit("pageup");
    reveal_strlit("pagedown");
    reveal_strlit("up");
    reveal_strlit("down");
    reveal_strlit("left");
    reveal_strlit("right");
    reveal_strlit("capslock");
    reveal_strlit("numlock");
    reveal_strlit("scrolllock");
    reveal_strlit("printscreen");
    reveal_strlit("pause");
    reveal_strlit("menu");
    reveal_strlit("plus");
    reveal_strlit("minus");
    reveal_strlit("comma");
    reveal_strlit("period");
    reveal_strlit("slash");
    reveal_strlit("semicolon");
    reveal_strlit("quote");
    reveal_strlit("backquote");
    reveal_strlit("backslash");
    assert(ascii_lower_seq("Backslash"@) =~= "backslash"@);
    assert("backslash"@[5] != "backspace"@[5]);
    assert("backslash"@[0] != "semicolon"@[0]);
    assert("backslash"@[4] != "backquote"@[4]);
}

/// `BracketLeft` is read back from its name.
proof fn lemma_bracket_left_round_trips()
    ensures
        key_named(Key::BracketLeft.spec_name()) == Some(Key::BracketLeft),
        plain_word(Key::BracketLeft.spec_word()),
{
    reveal_strlit("ctrl");
    reveal_strlit("shift");
    reveal_strlit("alt");
    reveal_strlit("super");
    reveal_strlit("BracketLeft");
    reveal_strlit("enter");
    reveal_strlit("tab");
    reveal_strlit("backspace");
    reveal_strlit("escape");
    reveal_strlit("space");
    reveal_strlit("delete");
    reveal_strlit("insert");
    reveal_strlit("home");
    reveal_strlit("end");
    reveal_strlit("pageup");
    reveal_strlit("pagedown");
    reveal_strlit("up");
    reveal_strlit("down");
    reveal_strlit("left");
    reveal_strlit("right");
    reveal_strlit("capslock");
    reveal_strlit("numlock");
    reveal_strlit("scrolllock");
    reveal_strlit("printscreen");
    reveal_strlit("pause");
    reveal_strlit("menu");
    reveal_strlit("plus");
    reveal_strlit("minus");
    reveal_strlit("comma");
    reveal_strlit("period");
    reveal_strlit("slash");
    reveal_strlit("semicolon");
    reveal_strlit("quote");
    reveal_strlit("backquote");
    reveal_strlit("backslash");
    reveal_strlit("bracketleft");
    assert(ascii_lower_seq("BracketLeft"@) =~= "bracketleft"@);
    assert("bracketleft"@[0] != "printscreen"@[0]);
}

/// `BracketRight` is read back from its name.
proof fn lemma_bracket_right_round_trips()
    ensures
        key_named(Key::BracketRight.spec_name()) == Some(Key::BracketRight),
        plain_word(Key::BracketRight.spec_word()),
{
    reveal_strlit("ctrl");
    reveal_strlit("shift");
    reveal_strlit("alt");
    reveal_strlit("super");
    reveal_strlit("BracketRight");
    reveal_strlit("enter");
    reveal_strlit("tab");
    reveal_strlit("backspace");
    reveal_strlit("escape");
    reveal_strlit("space");
    reveal_strlit("delete");
    reveal_strlit("insert");
    reveal_strlit("home");
    reveal_strlit("end");
    reveal_strlit("pageup");
    reveal_strlit("pagedown");
    reveal_strlit("up");
    reveal_strlit("down");
    reveal_strlit("left");
    reveal_strlit("right");
    reveal_strlit("capslock");
    reveal_strlit("numlock");
    reveal_strlit("scrolllock");
    reveal_strlit("printscreen");
    reveal_strlit("pause");
    reveal_strlit("menu");
    reveal_strlit("plus");
    reveal_strlit("minus");
    reveal_strlit("comma");
    reveal_strlit("period");
    reveal_strlit("slash");
    reveal_strlit("semicolon");
    reveal_strlit("quote");
    reveal_strlit("backquote");
    reveal_strlit("backslash");
    reveal_strlit("bracketleft");
    reveal_strlit("bracketright");
    assert(ascii_lower_seq("BracketRight"@) =~= "bracketright"@);
}

/// `Equal` is read back from its name.
proof fn lemma_equal_round_trips()
    ensures
        key_named(Key::Equal.spec_name()) == Some(Key::Equal),
        plain_word(Key::Equal.spec_word()),
{
    reveal_strlit("ctrl");
    reveal_strlit("shift");
    reveal_strlit("alt");
    reveal_strlit("super");
    reveal_strlit("Equal");
    reveal_strlit("enter");
    reveal_strlit("tab");
    reveal_strlit("backspace");
    reveal_strlit("escape");
    reveal_strlit("space");
    reveal_strlit("delete");
    reveal_strlit("insert");
    reveal_strlit("home");
    reveal_strlit("end");
    reveal_strlit("pageup");
    reveal_strlit("pagedown");
    reveal_strlit("up");
    reveal_strlit("down");
    reveal_strlit("left");
    reveal_strlit("right");
    reveal_strlit("capslock");
    reveal_strlit("numlock");
    reveal_strlit("scrolllock");
    reveal_strlit("printscreen");
    reveal_strlit("pause");
    reveal_strlit("menu");
    reveal_strlit("plus");
    reveal_strlit("minus");
    reveal_strlit("comma");
    reveal_strlit("period");
    reveal_strlit("slash");
    reveal_strlit("semicolon");
    reveal_strlit("quote");
    reveal_strlit("backquote");
    reveal_strlit("backslash");
    reveal_strlit("bracketleft");
    reveal_strlit("bracketright");
    reveal_strlit("equal");
    assert(ascii_lower_seq("Equal"@) =~= "equal"@);
    assert("equal"@[0] != "shift"@[0]);
    assert("equal"@[0] != "super"@[0]);
    assert("equal"@[1] != "enter"@[1]);
    assert("equal"@[0] != "space"@[0]);
    assert("equal"@[0] != "right"@[0]);
    assert("equal"@[0] != "pause"@[0]);
    assert("equal"@[0] != "minus"@[0]);
    assert("equal"@[0] != "comma"@[0]);
    assert("equal"@[0] != "slash"@[0]);
    assert("equal"@[0] != "quote"@[0]);
}

/// A key with a name of its own is read back from it.
proof fn lemma_word_name_round_trips(key: Key)
    requires
        !(key is Char),
        !(key is F),
    ensures
        key_named(key.spec_name()) == Some(key),
        plain_word(key.spec_word()),
{
    match key {
        Key::Enter => lemma_enter_round_trips(),
        Key::Tab => lemma_tab_round_trips(),
        Key::Backspace => lemma_backspace_round_trips(),
        Key::Escape => lemma_escape_round_trips(),
        Key::Space => lemma_space_round_trips(),
        Key::Delete => lemma_delete_round_trips(),
        Key::Insert => lemma_insert_round_trips(),
        Key::Home => lemma_home_round_trips(),
        Key::End => lemma_end_round_trips(),
        Key::PageUp => lemma_page_up_round_trips(),
        Key::PageDown => lemma_page_down_round_trips(),
        Key::Up => lemma_up_round_trips(),
        Key::Down => lemma_down_round_trips(),
        Key::Left => lemma_left_round_trips(),
        Key::Right => lemma_right_round_trips(),
        Key::CapsLock => lemma_caps_lock_round_trips(),
        Key::NumLock => lemma_num_lock_round_trips(),
        Key::ScrollLock => lemma_scroll_lock_round_trips(),
        Key::PrintScreen => lemma_print_screen_round_trips(),
        Key::Pause => lemma_pause_round_trips(),
        Key::Menu => lemma_menu_round_trips(),
        Key::Plus => lemma_plus_round_trips(),
        Key::Minus => lemma_minus_round_trips(),
        Key::Comma => lemma_comma_round_trips(),
        Key::Period => lemma_period_round_trips(),
        Key::Slash => lemma_slash_round_trips(),
        Key::Semicolon => lemma_semicolon_round_trips(),
        Key::Quote => lemma_quote_round_trips(),
        Key::Backquote => lemma_backquote_round_trips(),
        Key::Backslash => lemma_backslash_round_trips(),
        Key::BracketLeft => lemma_bracket_left_round_trips(),
        Key::BracketRight => lemma_bracket_right_round_trips(),
        Key::Equal => lemma_equal_round_trips(),
        _ => {},
    }
}

/// Every key the vocabulary can name is read back from its name: `from_name` undoes
/// `name`.
pub proof fn lemma_key_name_round_trips(key: Key)
    requires
        key.nameable(),
    ensures
        key_named(key.spec_name()) == Some(key),
{
    match key {
        Key::Char(c) => lemma_char_name_round_trips(c),
        Key::F(n) => lemma_function_name_round_trips(n),
        _ => lemma_word_name_round_trips(key),
    }
}


/// `first_plus` finds the first `+`.
proof fn lemma_first_plus(s: Seq<char>, k: int)
    requires
        0 <= k <= s.len(),
        forall|i: int| 0 <= i < k ==> #[trigger] s[i] != '+',
        k == s.len() || s[k] == '+',
    ensures
        first_plus(s) == k,
    decreases k,
{
    if k > 0 {
        assert(s[0] != '+');
        let t = s.drop_first();
        assert forall|i: int| 0 <= i < k - 1 implies #[trigger] t[i] != '+' by {
            assert(t[i] == s[i + 1]);
        }
        lemma_first_plus(t, k - 1);
    }
}

/// Text with no white space at either end is its own trim.
proof fn lemma_trim_clean(s: Seq<char>)
    requires
        s.len() > 0 ==> !crate::spell::is_space(s[0]) && !crate::spell::is_space(s.last()),
    ensures
        trim(s) == s,
{
    assert(crate::spell::trim_start(s) == s);
}

/// A modifier written with its `+` is read off the front of the text, whatever follows.
proof fn lemma_modifier_token(word: Seq<char>, flag: Modifiers, t: Seq<char>, held: Modifiers)
    requires
        word.len() > 0,
        forall|i: int| 0 <= i < word.len() ==> #[trigger] word[i] != '+',
        !crate::spell::is_space(word[0]),
        !crate::spell::is_space(word.last()),
        modifier_named(word) == Some(flag),
    ensures
        split_modifiers(word + "+"@ + t, held) == split_modifiers(t, held.join(flag)),
{
    reveal_strlit("+");
    let s = word + "+"@ + t;
    let k = word.len() as int;
    assert forall|i: int| 0 <= i < k implies #[trigger] s[i] != '+' by {
        assert(s[i] == word[i]);
    }
    lemma_first_plus(s, k);
    assert(s.take(k) =~= word);
    lemma_trim_clean(word);
    assert(s.skip(k + 1) =~= t);
}

/// The four modifier words, with the flag each names.
proof fn lemma_modifier_words()
    ensures
        modifier_named("Ctrl"@) == Some(Modifiers { shift: false, ctrl: true, alt: false, logo: false }),
        modifier_named("Shift"@) == Some(Modifiers { shift: true, ctrl: false, alt: false, logo: false }),
        modifier_named("Alt"@) == Some(Modifiers { shift: false, ctrl: false, alt: true, logo: false }),
        modifier_named("Super"@) == Some(Modifiers { shift: false, ctrl: false, alt: false, logo: true }),
        "Ctrl+"@ == "Ctrl"@ + "+"@,
        "Shift+"@ == "Shift"@ + "+"@,
        "Alt+"@ == "Alt"@ + "+"@,
        "Super+"@ == "Super"@ + "+"@,
        forall|i: int| 0 <= i < "Ctrl"@.len() ==> #[trigger] "Ctrl"@[i] != '+',
        forall|i: int| 0 <= i < "Shift"@.len() ==> #[trigger] "Shift"@[i] != '+',
        forall|i: int| 0 <= i < "Alt"@.len() ==> #[trigger] "Alt"@[i] != '+',
        forall|i: int| 0 <= i < "Super"@.len() ==> #[trigger] "Super"@[i] != '+',
        "Ctrl"@.len() == 4 && "Shift"@.len() == 5 && "Alt"@.len() == 3 && "Super"@.len() == 5,
        !crate::spell::is_space("Ctrl"@[0]) && !crate::spell::is_space("Ctrl"@[3]),
        !crate::spell::is_space("Shift"@[0]) && !crate::spell::is_space("Shift"@[4]),
        !crate::spell::is_space("Alt"@[0]) && !crate::spell::is_space("Alt"@[2]),
        !crate::spell::is_space("Super"@[0]) && !crate::spell::is_space("Super"@[4]),
{
    reveal_strlit("Ctrl");
    reveal_strlit("Shift");
    reveal_strlit("Alt");
    reveal_strlit("Super");
    reveal_strlit("Ctrl+");
    reveal_strlit("Shift+");
    reveal_strlit("Alt+");
    reveal_strlit("Super+");
    reveal_strlit("+");
    reveal_strlit("ctrl");
    reveal_strlit("shift");
    reveal_strlit("alt");
    reveal_strlit("super");
    assert(ascii_lower_seq("Ctrl"@) =~= "ctrl"@);
    assert(ascii_lower_seq("Shift"@) =~= "shift"@);
    assert(ascii_lower_seq("Alt"@) =~= "alt"@);
    assert(ascii_lower_seq("Super"@) =~= "super"@);
    assert("super"@[1] != "shift"@[1]);
    assert("Ctrl+"@ =~= "Ctrl"@ + "+"@);
    assert("Shift+"@ =~= "Shift"@ + "+"@);
    assert("Alt+"@ =~= "Alt"@ + "+"@);
    assert("Super+"@ =~= "Super"@ + "+"@);
}

/// A key's name is never taken for a modifier: reading modifiers stops at it and leaves it
/// whole.
proof fn lemma_name_is_not_a_modifier(key: Key, held: Modifiers)
    requires
        key.nameable(),
    ensures
        split_modifiers(key.spec_name(), held) == (held, key.spec_name()),
{
    reveal_strlit("ctrl");
    reveal_strlit("shift");
    reveal_strlit("alt");
    reveal_strlit("super");
    let s = key.spec_name();
    match key {
        Key::Char(c) => {
            if c == '+' {
                lemma_first_plus(s, 0);
                assert(trim(s.take(0)) =~= Seq::<char>::empty());
                assert(ascii_lower_seq(Seq::<char>::empty()) =~= Seq::<char>::empty());
            } else {
                lemma_first_plus(s, 1);
                assert(s.take(1) =~= s);
                if crate::spell::is_space(c) {
                    assert(crate::spell::trim_start(s) == crate::spell::trim_start(s.drop_first()));
                    assert(trim(s) =~= Seq::<char>::empty());
                    assert(ascii_lower_seq(Seq::<char>::empty()) =~= Seq::<char>::empty());
                } else {
                    lemma_trim_clean(s);
                }
                assert(ascii_lower_seq(s).len() == 1);
            }
        },
        Key::F(n) => {
            lemma_decimal_reads_back(n as nat);
            let d = decimal(n as nat);
            assert forall|i: int| 0 <= i < s.len() implies #[trigger] s[i] != '+' by {
                if i > 0 {
                    assert(s[i] == d[i - 1]);
                    assert(is_digit(d[i - 1]));
                }
            }
            lemma_first_plus(s, s.len() as int);
            assert(s.take(s.len() as int) =~= s);
            assert(s.last() == d.last());
            assert(is_digit(d[d.len() - 1]));
            lemma_trim_clean(s);
            assert(ascii_lower_seq(s)[0] == 'f');
        },
        _ => {
            lemma_word_name_round_trips(key);
            lemma_first_plus(s, s.len() as int);
            assert(s.take(s.len() as int) =~= s);
            lemma_trim_clean(s);
        },
    }
}

/// A modifier that may or may not be written: if it is, it is read; either way, what
/// follows is what is left.
proof fn lemma_optional_token(
    present: bool,
    word: Seq<char>,
    flag: Modifiers,
    t: Seq<char>,
    held: Modifiers,
)
    requires
        word.len() > 0,
        forall|i: int| 0 <= i < word.len() ==> #[trigger] word[i] != '+',
        !crate::spell::is_space(word[0]),
        !crate::spell::is_space(word.last()),
        modifier_named(word) == Some(flag),
    ensures
        split_modifiers((if present { word + "+"@ } else { Seq::empty() }) + t, held)
            == split_modifiers(t, if present { held.join(flag) } else { held }),
{
    if present {
        assert((word + "+"@) + t =~= word + "+"@ + t);
        lemma_modifier_token(word, flag, t, held);
    } else {
        assert(Seq::<char>::empty() + t =~= t);
    }
}

/// The modifiers' display form is read back as those modifiers, leaving what follows it.
proof fn lemma_modifiers_text_read_back(m: Modifiers, t: Seq<char>)
    ensures
        split_modifiers(modifiers_text(m) + t, Modifiers::nothing()) == split_modifiers(t, m),
{
    lemma_modifier_words();
    let ctrl = Modifiers { shift: false, ctrl: true, alt: false, logo: false };
    let shift = Modifiers { shift: true, ctrl: false, alt: false, logo: false };
    let alt = Modifiers { shift: false, ctrl: false, alt: true, logo: false };
    let logo = Modifiers { shift: false, ctrl: false, alt: false, logo: true };
    let a = if m.ctrl { "Ctrl"@ + "+"@ } else { Seq::<char>::empty() };
    let b = if m.shift { "Shift"@ + "+"@ } else { Seq::<char>::empty() };
    let c = if m.alt { "Alt"@ + "+"@ } else { Seq::<char>::empty() };
    let d = if m.logo { "Super"@ + "+"@ } else { Seq::<char>::empty() };
    let h0 = Modifiers::nothing();
    let h1 = if m.ctrl { h0.join(ctrl) } else { h0 };
    let h2 = if m.shift { h1.join(shift) } else { h1 };
    let h3 = if m.alt { h2.join(alt) } else { h2 };
    let h4 = if m.logo { h3.join(logo) } else { h3 };
    assert(modifiers_text(m) == a + b + c + d);
    assert(modifiers_text(m) + t =~= a + (b + (c + (d + t))));
    lemma_optional_token(m.ctrl, "Ctrl"@, ctrl, b + (c + (d + t)), h0);
    lemma_optional_token(m.shift, "Shift"@, shift, c + (d + t), h1);
    lemma_optional_token(m.alt, "Alt"@, alt, d + t, h2);
    lemma_optional_token(m.logo, "Super"@, logo, t, h3);
    assert(h4 == m);
}

/// The display form of a chord parses back to the same chord, for every chord whose key
/// the vocabulary can name and that is not a white-space character: `Chord::parse` undoes
/// `Chord::to_string`. A chord on a white-space character prints as text the parser trims
/// away, and is the one kind that does not come back.
pub proof fn lemma_chord_text_round_trips(chord: Chord)
    requires
        chord.key.nameable(),
        !(chord.key matches Key::Char(c) && crate::spell::is_space(c)),
    ensures
        chord_parsed(chord.spec_text()) == Some(chord),
{
    let name = chord.key.spec_name();
    lemma_modifiers_text_read_back(chord.mods, name);
    lemma_name_is_not_a_modifier(chord.key, chord.mods);
    lemma_key_name_round_trips(chord.key);
    match chord.key {
        Key::Char(c) => {
            assert(!crate::spell::is_space(c));
            assert(name =~= seq![c]);
            lemma_trim_clean(name);
        },
        Key::F(n) => {
            lemma_decimal_reads_back(n as nat);
            assert(is_digit(decimal(n as nat)[decimal(n as nat).len() - 1]));
            assert(name.last() == decimal(n as nat).last());
            lemma_trim_clean(name);
        },
        _ => {
            lemma_word_name_round_trips(chord.key);
            lemma_trim_clean(name);
        },
    }
}

/// The character a key produces on its own: a character key its character, the space bar
/// a space, and each named punctuation key the character on its cap.
pub open spec fn key_character(key: Key) -> Option<char> {
    match key {
        Key::Char(c) => Some(c),
        Key::Space => Some(' '),
        Key::Plus => Some('+'),
        Key::Minus => Some('-'),
        Key::Comma => Some(','),
        Key::Period => Some('.'),
        Key::Slash => Some('/'),
        Key::Semicolon => Some(';'),
        Key::Quote => Some('\''),
        Key::Backquote => Some('`'),
        Key::Backslash => Some('\\'),
        Key::BracketLeft => Some('['),
        Key::BracketRight => Some(']'),
        Key::Equal => Some('='),
        _ => None,
    }
}

/// The character a key produces on its own, or `None` for a key that produces none.
pub fn character_of(key: Key) -> (r: Option<char>)
    ensures
        r == key_character(key),
{
    match key {
        Key::Char(c) => Some(c),
        Key::Space => Some(' '),
        Key::Plus => Some('+'),
        Key::Minus => Some('-'),
        Key::Comma => Some(','),
        Key::Period => Some('.'),
        Key::Slash => Some('/'),
        Key::Semicolon => Some(';'),
        Key::Quote => Some('\''),
        Key::Backquote => Some('`'),
        Key::Backslash => Some('\\'),
        Key::BracketLeft => Some('['),
        Key::BracketRight => Some(']'),
        Key::Equal => Some('='),
        _ => None,
    }
}

/// The character on the same key of a US layout with Shift let go: a capital letter's small
/// letter, and each shifted symbol the digit or punctuation beneath it. Every other
/// character is its own.
pub open spec fn base_character(c: char) -> char {
    if 'A' <= c <= 'Z' { ascii_lower(c) }
    else if c == '!' { '1' } else if c == '@' { '2' } else if c == '#' { '3' }
    else if c == '$' { '4' } else if c == '%' { '5' } else if c == '^' { '6' }
    else if c == '&' { '7' } else if c == '*' { '8' } else if c == '(' { '9' }
    else if c == ')' { '0' } else if c == '_' { '-' } else if c == '+' { '=' }
    else if c == '{' { '[' } else if c == '}' { ']' } else if c == '|' { '\\' }
    else if c == ':' { ';' } else if c == '"' { '\'' } else if c == '<' { ',' }
    else if c == '>' { '.' } else if c == '?' { '/' } else if c == '~' { '`' }
    else { c }
}

/// The character a key produces with Shift let go, on a US layout.
pub fn unshifted(c: char) -> (r: char)
    ensures
        r == base_character(c),
{
    if 'A' <= c && c <= 'Z' { lower_char(c) }
    else if c == '!' { '1' } else if c == '@' { '2' } else if c == '#' { '3' }
    else if c == '$' { '4' } else if c == '%' { '5' } else if c == '^' { '6' }
    else if c == '&' { '7' } else if c == '*' { '8' } else if c == '(' { '9' }
    else if c == ')' { '0' } else if c == '_' { '-' } else if c == '+' { '=' }
    else if c == '{' { '[' } else if c == '}' { ']' } else if c == '|' { '\\' }
    else if c == ':' { ';' } else if c == '"' { '\'' } else if c == '<' { ',' }
    else if c == '>' { '.' } else if c == '?' { '/' } else if c == '~' { '`' }
    else { c }
}

/// Text with nothing in it names no chord.
pub proof fn lemma_empty_is_no_chord()
    ensures
        chord_parsed(Seq::<char>::empty()) is None,
{
    reveal_strlit("enter");
    reveal_strlit("tab");
    reveal_strlit("backspace");
    reveal_strlit("escape");
    reveal_strlit("space");
    reveal_strlit("delete");
    reveal_strlit("insert");
    reveal_strlit("home");
    reveal_strlit("end");
    reveal_strlit("pageup");
    reveal_strlit("pagedown");
    reveal_strlit("up");
    reveal_strlit("down");
    reveal_strlit("left");
    reveal_strlit("right");
    reveal_strlit("capslock");
    reveal_strlit("numlock");
    reveal_strlit("scrolllock");
    reveal_strlit("printscreen");
    reveal_strlit("pause");
    reveal_strlit("menu");
    reveal_strlit("plus");
    reveal_strlit("minus");
    reveal_strlit("comma");
    reveal_strlit("period");
    reveal_strlit("slash");
    reveal_strlit("semicolon");
    reveal_strlit("quote");
    reveal_strlit("backquote");
    reveal_strlit("backslash");
    reveal_strlit("bracketleft");
    reveal_strlit("bracketright");
    reveal_strlit("equal");
    reveal_strlit("ctrl");
    reveal_strlit("shift");
    reveal_strlit("alt");
    reveal_strlit("super");
    let e = Seq::<char>::empty();
    assert(e.take(0) =~= e);
    assert(trim(e) =~= e);
    assert(ascii_lower_seq(e) =~= e);
    assert(split_modifiers(e, Modifiers::nothing()) == (Modifiers::nothing(), e));
}

} // verus!
