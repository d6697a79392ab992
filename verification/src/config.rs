//! The parts of the configuration file that are plain values: the tab strip, the cursor,
//! the diagnostics a load reports, the background keys a load warns about, and the
//! default keymap.
use vstd::prelude::*;

use crate::action::{action_named, Action};
use crate::keymap::{names_of, Keymap};
use crate::spell::{chars_of, spells};

verus! {

/// Something that went wrong reading or writing the configuration.
#[derive(Clone, PartialEq, Eq, Debug)]
pub enum ConfigError {
    /// The file could not be read or written.
    Io {
        /// The file involved.
        path: String,
        /// What the filesystem said.
        message: String,
    },
    /// The file is not valid TOML, or holds a value the schema does not accept. The
    /// parser's rendering names the line and the offending span.
    Parse {
        /// The file involved.
        path: String,
        /// The parser's own rendering of what is wrong and where.
        message: String,
    },
    /// The configuration directory could not be determined.
    NoConfigDir,
}

/// How serious a problem found while loading the configuration is.
#[derive(Clone, Copy, PartialEq, Eq, Debug, Structural)]
pub enum Severity {
    /// The app runs, but not with what the file asked for.
    Warning,
    /// A setting was discarded. The app still runs, on the default for that setting.
    Error,
}

/// Something the configuration file got wrong.
#[derive(Clone, PartialEq, Eq, Debug)]
pub struct Diagnostic {
    /// How serious it is.
    pub severity: Severity,
    /// What is wrong, in a sentence, naming the key where possible.
    pub message: String,
}

impl Diagnostic {
    /// A warning with this message.
    pub fn warning(message: String) -> (r: Diagnostic)
        ensures
            r.severity == Severity::Warning,
            r.message@ == message@,
    {
        Diagnostic { severity: Severity::Warning, message }
    }

    /// An error with this message.
    pub fn error(message: String) -> (r: Diagnostic)
        ensures
            r.severity == Severity::Error,
            r.message@ == message@,
    {
        Diagnostic { severity: Severity::Error, message }
    }
}

/// Where the tab strip lives.
#[derive(Clone, Copy, PartialEq, Eq, Debug, Structural)]
pub enum TabPosition {
    /// One row shared with the titlebar.
    Top,
    /// A rail down the left edge.
    Left,
}

impl TabPosition {
    /// The value written in the config file.
    pub open spec fn spec_as_str(self) -> Seq<char> {
        match self {
            TabPosition::Top => "top"@,
            TabPosition::Left => "left"@,
        }
    }

    /// The value written in the config file.
    pub fn as_str(self) -> (r: &'static str)
        ensures
            r@ == self.spec_as_str(),
    {
        match self {
            TabPosition::Top => "top",
            TabPosition::Left => "left",
        }
    }

    /// The other one, for the key that flips the strip.
    pub open spec fn spec_flipped(self) -> TabPosition {
        match self {
            TabPosition::Top => TabPosition::Left,
            TabPosition::Left => TabPosition::Top,
        }
    }

    /// The other one, for the key that flips the strip.
    pub fn flipped(self) -> (r: TabPosition)
        ensures
            r == self.spec_flipped(),
            r != self,
    {
        match self {
            TabPosition::Top => TabPosition::Left,
            TabPosition::Left => TabPosition::Top,
        }
    }
}

impl Default for TabPosition {
    fn default() -> (r: TabPosition)
        ensures
            r == TabPosition::Top,
    {
        TabPosition::Top
    }
}

/// Flipping the tab strip twice puts it back where it was.
pub proof fn lemma_flip_twice(p: TabPosition)
    ensures
        p.spec_flipped().spec_flipped() == p,
{
}

/// The tab strip.
#[derive(Clone, PartialEq, Eq, Debug, Structural)]
pub struct TabSettings {
    /// Where the strip lives.
    pub position: TabPosition,
    /// Whether a new tab opens the default profile without asking.
    pub open_default_without_asking: bool,
}

impl Default for TabSettings {
    fn default() -> (r: TabSettings)
        ensures
            r.position == TabPosition::Top,
            r.open_default_without_asking,
    {
        TabSettings { position: TabPosition::Top, open_default_without_asking: true }
    }
}

/// The thinnest a cursor may be drawn, in physical pixels.
pub const MIN_CURSOR_THICKNESS: u8 = 1;

/// The thickest a cursor may be drawn, in physical pixels.
pub const MAX_CURSOR_THICKNESS: u8 = 8;

/// The shapes a cursor can take.
#[derive(Clone, Copy, PartialEq, Eq, Debug, Structural)]
pub enum CursorShape {
    /// A filled block over the cell.
    Block,
    /// A vertical bar at the left of the cell.
    Bar,
    /// A horizontal line under the cell.
    Underline,
    /// A block outline, drawn as a rectangle.
    HollowBlock,
}

impl CursorShape {
    /// Every shape, in the order the settings panel lists them.
    pub const ALL: [CursorShape; 4] = [
        CursorShape::Block,
        CursorShape::Bar,
        CursorShape::Underline,
        CursorShape::HollowBlock,
    ];

    /// The value written in the config file.
    pub open spec fn spec_as_str(self) -> Seq<char> {
        match self {
            CursorShape::Block => "block"@,
            CursorShape::Bar => "bar"@,
            CursorShape::Underline => "underline"@,
            CursorShape::HollowBlock => "hollow-block"@,
        }
    }

    /// The value written in the config file.
    pub fn as_str(self) -> (r: &'static str)
        ensures
            r@ == self.spec_as_str(),
    {
        match self {
            CursorShape::Block => "block",
            CursorShape::Bar => "bar",
            CursorShape::Underline => "underline",
            CursorShape::HollowBlock => "hollow-block",
        }
    }
}

impl Default for CursorShape {
    fn default() -> (r: CursorShape)
        ensures
            r == CursorShape::Block,
    {
        CursorShape::Block
    }
}

/// The cursor.
#[derive(Clone, PartialEq, Eq, Debug, Structural)]
pub struct CursorSettings {
    /// Which shape to draw.
    pub shape: CursorShape,
    /// Whether it blinks.
    pub blink: bool,
    /// The thickness in pixels of a bar or underline cursor.
    pub thickness: u8,
}

impl Default for CursorSettings {
    fn default() -> (r: CursorSettings)
        ensures
            r.shape == CursorShape::Block,
            r.blink,
            r.thickness == 2,
    {
        CursorSettings { shape: CursorShape::Block, blink: true, thickness: 2 }
    }
}

/// Whether a cursor thickness is one the terminal draws.
pub open spec fn thickness_allowed(thickness: u8) -> bool {
    MIN_CURSOR_THICKNESS <= thickness <= MAX_CURSOR_THICKNESS
}

impl CursorSettings {
    /// Whether the thickness is one the terminal draws. One outside the range is reported
    /// when the configuration is loaded.
    pub fn thickness_in_range(&self) -> (r: bool)
        ensures
            r == thickness_allowed(self.thickness),
    {
        MIN_CURSOR_THICKNESS <= self.thickness && self.thickness <= MAX_CURSOR_THICKNESS
    }

    /// The cursor as the terminal runs it: a thickness outside the range is replaced by
    /// the default one, and the rest is kept.
    pub fn repaired(&self) -> (r: CursorSettings)
        ensures
            r.shape == self.shape,
            r.blink == self.blink,
            r.thickness == (if thickness_allowed(self.thickness) { self.thickness } else { 2 }),
    {
        let thickness = if self.thickness_in_range() { self.thickness } else { 2 };
        CursorSettings { shape: self.shape, blink: self.blink, thickness }
    }
}

/// The actions a keymap entry may name.
pub const ACTIONS: [&'static str; 18] = [
    "new-tab",
    "close-tab",
    "next-tab",
    "previous-tab",
    "new-window",
    "copy",
    "paste",
    "find",
    "settings",
    "toggle-tab-position",
    "scroll-page-up",
    "scroll-page-down",
    "scroll-to-top",
    "scroll-to-bottom",
    "font-larger",
    "font-smaller",
    "font-reset",
    "quit",
];

/// The keymap's action names are the actions' names, in the same order.
pub proof fn lemma_actions_are_the_action_names()
    ensures
        forall|i: int| 0 <= i < 18 ==> (#[trigger] ACTIONS[i])@ == Action::ALL[i].spec_name(),
{
    assert(ACTIONS[0]@ == Action::ALL[0].spec_name());
    assert(ACTIONS[1]@ == Action::ALL[1].spec_name());
    assert(ACTIONS[2]@ == Action::ALL[2].spec_name());
    assert(ACTIONS[3]@ == Action::ALL[3].spec_name());
    assert(ACTIONS[4]@ == Action::ALL[4].spec_name());
    assert(ACTIONS[5]@ == Action::ALL[5].spec_name());
    assert(ACTIONS[6]@ == Action::ALL[6].spec_name());
    assert(ACTIONS[7]@ == Action::ALL[7].spec_name());
    assert(ACTIONS[8]@ == Action::ALL[8].spec_name());
    assert(ACTIONS[9]@ == Action::ALL[9].spec_name());
    assert(ACTIONS[10]@ == Action::ALL[10].spec_name());
    assert(ACTIONS[11]@ == Action::ALL[11].spec_name());
    assert(ACTIONS[12]@ == Action::ALL[12].spec_name());
    assert(ACTIONS[13]@ == Action::ALL[13].spec_name());
    assert(ACTIONS[14]@ == Action::ALL[14].spec_name());
    assert(ACTIONS[15]@ == Action::ALL[15].spec_name());
    assert(ACTIONS[16]@ == Action::ALL[16].spec_name());
    assert(ACTIONS[17]@ == Action::ALL[17].spec_name());
}

/// The bindings a fresh install gets.
pub open spec fn default_bindings() -> Map<Seq<char>, Seq<char>> {
    Map::empty()
        .insert("new-tab"@, "Ctrl+Shift+T"@)
        .insert("close-tab"@, "Ctrl+Shift+W"@)
        .insert("next-tab"@, "Ctrl+Tab"@)
        .insert("previous-tab"@, "Ctrl+Shift+Tab"@)
        .insert("new-window"@, "Ctrl+Shift+N"@)
        .insert("copy"@, "Ctrl+Shift+C"@)
        .insert("paste"@, "Ctrl+Shift+V"@)
        .insert("find"@, "Ctrl+Shift+F"@)
        .insert("settings"@, "Ctrl+Shift+Comma"@)
        .insert("toggle-tab-position"@, "Ctrl+Shift+P"@)
        .insert("scroll-page-up"@, "Shift+PageUp"@)
        .insert("scroll-page-down"@, "Shift+PageDown"@)
        .insert("scroll-to-top"@, "Ctrl+Shift+Home"@)
        .insert("scroll-to-bottom"@, "Ctrl+Shift+End"@)
        .insert("font-larger"@, "Ctrl+Plus"@)
        .insert("font-smaller"@, "Ctrl+Minus"@)
        .insert("font-reset"@, "Ctrl+0"@)
        .insert("quit"@, "Alt+F4"@)
}

/// The bindings a fresh install gets, sorted by action name. Every action has one, and
/// nothing else does.
pub fn default_keymap() -> (r: Keymap)
    ensures
        r.wf(),
        r.spec_map() == default_bindings(),
        forall|name: Seq<char>| #[trigger] r.spec_map().contains_key(name) ==> action_named(name) is Some,
        forall|a: Action| #[trigger] r.spec_map().contains_key(a.spec_name()),
{
    let mut keys = Keymap::new();
    keys.insert("new-tab", "Ctrl+Shift+T");
    keys.insert("close-tab", "Ctrl+Shift+W");
    keys.insert("next-tab", "Ctrl+Tab");
    keys.insert("previous-tab", "Ctrl+Shift+Tab");
    keys.insert("new-window", "Ctrl+Shift+N");
    keys.insert("copy", "Ctrl+Shift+C");
    keys.insert("paste", "Ctrl+Shift+V");
    keys.insert("find", "Ctrl+Shift+F");
    keys.insert("settings", "Ctrl+Shift+Comma");
    keys.insert("toggle-tab-position", "Ctrl+Shift+P");
    keys.insert("scroll-page-up", "Shift+PageUp");
    keys.insert("scroll-page-down", "Shift+PageDown");
    keys.insert("scroll-to-top", "Ctrl+Shift+Home");
    keys.insert("scroll-to-bottom", "Ctrl+Shift+End");
    keys.insert("font-larger", "Ctrl+Plus");
    keys.insert("font-smaller", "Ctrl+Minus");
    keys.insert("font-reset", "Ctrl+0");
    keys.insert("quit", "Alt+F4");
    proof {
        assert forall|name: Seq<char>| #[trigger] keys.spec_map().contains_key(name) implies action_named(name) is Some by {
            if name == "new-tab"@ { assert(Action::NewTab.spec_name() == name); }
            if name == "close-tab"@ { assert(Action::CloseTab.spec_name() == name); }
            if name == "next-tab"@ { assert(Action::NextTab.spec_name() == name); }
            if name == "previous-tab"@ { assert(Action::PreviousTab.spec_name() == name); }
            if name == "new-window"@ { assert(Action::NewWindow.spec_name() == name); }
            if name == "copy"@ { assert(Action::Copy.spec_name() == name); }
            if name == "paste"@ { assert(Action::Paste.spec_name() == name); }
            if name == "find"@ { assert(Action::Find.spec_name() == name); }
            if name == "settings"@ { assert(Action::Settings.spec_name() == name); }
            if name == "toggle-tab-position"@ { assert(Action::ToggleTabPosition.spec_name() == name); }
            if name == "scroll-page-up"@ { assert(Action::ScrollPageUp.spec_name() == name); }
            if name == "scroll-page-down"@ { assert(Action::ScrollPageDown.spec_name() == name); }
            if name == "scroll-to-top"@ { assert(Action::ScrollToTop.spec_name() == name); }
            if name == "scroll-to-bottom"@ { assert(Action::ScrollToBottom.spec_name() == name); }
            if name == "font-larger"@ { assert(Action::FontLarger.spec_name() == name); }
            if name == "font-smaller"@ { assert(Action::FontSmaller.spec_name() == name); }
            if name == "font-reset"@ { assert(Action::FontReset.spec_name() == name); }
            if name == "quit"@ { assert(Action::Quit.spec_name() == name); }
        }
        assert forall|a: Action| #[trigger] keys.spec_map().contains_key(a.spec_name()) by {
            match a {
                Action::NewTab => {},
                Action::CloseTab => {},
                Action::NextTab => {},
                Action::PreviousTab => {},
                Action::NewWindow => {},
                Action::Copy => {},
                Action::Paste => {},
                Action::Find => {},
                Action::Settings => {},
                Action::ToggleTabPosition => {},
                Action::ScrollPageUp => {},
                Action::ScrollPageDown => {},
                Action::ScrollToTop => {},
                Action::ScrollToBottom => {},
                Action::FontLarger => {},
                Action::FontSmaller => {},
                Action::FontReset => {},
                Action::Quit => {},
            }
        }
    }
    keys
}

/// The names in a list that no action answers to, in the order they come.
pub open spec fn unknown_names(names: Seq<Seq<char>>) -> Seq<Seq<char>>
    decreases names.len(),
{
    if names.len() == 0 {
        Seq::empty()
    } else {
        unknown_names(names.drop_last()) + (if action_named(names.last()) is None {
            seq![names.last()]
        } else {
            Seq::empty()
        })
    }
}

/// Keymap entries naming an action that does not exist, in name order.
pub fn unknown_actions(keys: &Keymap) -> (r: Vec<String>)
    ensures
        r@.map_values(|s: String| s@) == unknown_names(names_of(keys.pairs())),
{
    let ghost names = names_of(keys.pairs());
    let mut out: Vec<String> = Vec::new();
    let mut i: usize = 0;
    while i < keys.len()
        invariant
            i <= keys.pairs().len(),
            names == names_of(keys.pairs()),
            out@.map_values(|s: String| s@) == unknown_names(names.take(i as int)),
        decreases keys.pairs().len() - i,
    {
        let name = keys.name_at(i);
        let known = Action::from_name(name.as_str());
        let ghost before = out@;
        assert(names.take(i as int + 1).drop_last() =~= names.take(i as int));
        assert(names.take(i as int + 1).last() == name@);
        if known.is_none() {
            out.push(name.clone());
            assert(out@.map_values(|s: String| s@) =~= before.map_values(|s: String| s@).push(name@));
        }
        assert(out@.map_values(|s: String| s@) =~= unknown_names(names.take(i as int + 1)));
        i += 1;
    }
    assert(names.take(keys.pairs().len() as int) =~= names);
    out
}

/// The kinds of background the file can name.
#[derive(Clone, Copy, PartialEq, Eq, Debug, Structural)]
pub enum BackgroundKind {
    /// The theme's ground colour, flat.
    Solid,
    /// A picture.
    Image,
    /// A two-stop gradient.
    Gradient,
}

/// Whether `[window.background]` may hold `key` for a background of this kind: `kind`
/// always, and the settings that kind has.
pub open spec fn background_allows(kind: BackgroundKind, key: Seq<char>) -> bool {
    key == "kind"@ || match kind {
        BackgroundKind::Solid => false,
        BackgroundKind::Image => key == "path"@ || key == "opacity"@,
        BackgroundKind::Gradient => key == "from"@ || key == "to"@ || key == "angle"@,
    }
}

/// The keys, of those written, that a background of this kind does not have.
pub open spec fn stray_keys(kind: BackgroundKind, keys: Seq<Seq<char>>) -> Seq<Seq<char>>
    decreases keys.len(),
{
    if keys.len() == 0 {
        Seq::empty()
    } else {
        let rest = stray_keys(kind, keys.drop_last());
        if background_allows(kind, keys.last()) { rest } else { rest.push(keys.last()) }
    }
}

/// Whether a background of this kind has the setting `key`.
fn allows(kind: BackgroundKind, key: &str) -> (r: bool)
    ensures
        r == background_allows(kind, key@),
{
    let k = chars_of(key);
    spells(&k, "kind") || match kind {
        BackgroundKind::Solid => false,
        BackgroundKind::Image => spells(&k, "path") || spells(&k, "opacity"),
        BackgroundKind::Gradient => spells(&k, "from") || spells(&k, "to") || spells(&k, "angle"),
    }
}

/// The keys written under `[window.background]` that the kind it names does not have, in
/// the order they were written. Serde cannot refuse them, because the background is told
/// apart by a tag, and a save keeps only what a load accepts, so each is worth a word.
pub fn stray_background_keys(kind: BackgroundKind, keys: &Vec<String>) -> (r: Vec<String>)
    ensures
        r@.map_values(|s: String| s@) == stray_keys(kind, keys@.map_values(|s: String| s@)),
{
    let ghost all = keys@.map_values(|s: String| s@);
    let mut out: Vec<String> = Vec::new();
    let mut i: usize = 0;
    while i < keys.len()
        invariant
            i <= keys.len(),
            all == keys@.map_values(|s: String| s@),
            out@.map_values(|s: String| s@) == stray_keys(kind, all.take(i as int)),
        decreases keys.len() - i,
    {
        let ghost before = out@;
        assert(all.take(i as int + 1).drop_last() =~= all.take(i as int));
        if !allows(kind, keys[i].as_str()) {
            out.push(keys[i].clone());
            assert(out@.map_values(|s: String| s@) =~= before.map_values(|s: String| s@).push(keys@[i as int]@));
        }
        assert(out@.map_values(|s: String| s@) =~= stray_keys(kind, all.take(i as int + 1)));
        i += 1;
    }
    assert(all.take(keys.len() as int) =~= all);
    out
}

/// The keys of the table `inner` within the table `outer` of a TOML text, inline or as a
/// section of their own, in the order they were written; nothing where the text is not
/// TOML or holds no such table.
pub uninterp spec fn nested_table_keys(text: Seq<char>, outer: Seq<char>, inner: Seq<char>) -> Option<Seq<Seq<char>>>;

/// The keys written under `[outer.inner]`.
///
/// Parses the text as a `toml_edit::DocumentMut`, looks up `outer` and then `inner` as
/// tables (a section or an inline table), and lists the inner table's keys, which
/// `toml_edit` keeps in the order they were written. Claimed: the result is a function of
/// the text and the two names, and is nothing where the parse fails or either table is
/// missing.
#[verifier::external_body]
fn written_table_keys(text: &str, outer: &str, inner: &str) -> (r: Option<Vec<String>>)
    ensures
        (match r {
            Some(v) => nested_table_keys(text@, outer@, inner@) == Some(v@.map_values(|s: String| s@)),
            None => nested_table_keys(text@, outer@, inner@) is None,
        }),
{
    let document = text.parse::<toml_edit::DocumentMut>().ok()?;
    let table = document.get(outer)?.as_table_like()?;
    let nested = table.get(inner)?.as_table_like()?;
    Some(nested.iter().map(|(key, _)| key.to_owned()).collect())
}

/// The keys written under `[window.background]` in a configuration file's text.
pub open spec fn background_table_keys(text: Seq<char>) -> Option<Seq<Seq<char>>> {
    nested_table_keys(text, "window"@, "background"@)
}

/// The keys written under `[window.background]` in a configuration file's text that a
/// background of `kind` does not have, in the order they were written. Each is reported
/// when the file is loaded, because the next save drops it. Text that is not TOML, or has
/// no such table, has none.
pub fn background_key_problems(text: &str, kind: BackgroundKind) -> (r: Vec<String>)
    ensures
        r@.map_values(|s: String| s@) == (match background_table_keys(text@) {
            Some(keys) => stray_keys(kind, keys),
            None => Seq::empty(),
        }),
{
    match written_table_keys(text, "window", "background") {
        Some(keys) => stray_background_keys(kind, &keys),
        None => {
            let none: Vec<String> = Vec::new();
            assert(none@.map_values(|s: String| s@) =~= Seq::<Seq<char>>::empty());
            none
        },
    }
}

/// The word the file uses for a kind of background.
pub fn kind_word(kind: BackgroundKind) -> (r: &'static str)
    ensures
        r@ == match kind {
            BackgroundKind::Solid => "solid"@,
            BackgroundKind::Image => "image"@,
            BackgroundKind::Gradient => "gradient"@,
        },
{
    match kind {
        BackgroundKind::Solid => "solid",
        BackgroundKind::Image => "image",
        BackgroundKind::Gradient => "gradient",
    }
}

/// A list whose every name is an action's has no unknown names.
pub proof fn lemma_no_unknown_names(names: Seq<Seq<char>>)
    requires
        forall|i: int| 0 <= i < names.len() ==> action_named(#[trigger] names[i]) is Some,
    ensures
        unknown_names(names) == Seq::<Seq<char>>::empty(),
    decreases names.len(),
{
    if names.len() > 0 {
        let rest = names.drop_last();
        assert forall|i: int| 0 <= i < rest.len() implies action_named(#[trigger] rest[i]) is Some by {
            assert(rest[i] == names[i]);
        }
        lemma_no_unknown_names(rest);
        assert(action_named(names[names.len() - 1]) is Some);
        assert(unknown_names(names) =~= Seq::<Seq<char>>::empty());
    }
}

/// The shipped keymap binds each action to its documented chord.
pub proof fn lemma_shipped_chords()
    ensures
        default_bindings()[Action::NewTab.spec_name()] == "Ctrl+Shift+T"@,
        default_bindings()[Action::CloseTab.spec_name()] == "Ctrl+Shift+W"@,
        default_bindings()[Action::NextTab.spec_name()] == "Ctrl+Tab"@,
        default_bindings()[Action::PreviousTab.spec_name()] == "Ctrl+Shift+Tab"@,
        default_bindings()[Action::NewWindow.spec_name()] == "Ctrl+Shift+N"@,
        default_bindings()[Action::Copy.spec_name()] == "Ctrl+Shift+C"@,
        default_bindings()[Action::Paste.spec_name()] == "Ctrl+Shift+V"@,
        default_bindings()[Action::Find.spec_name()] == "Ctrl+Shift+F"@,
        default_bindings()[Action::Settings.spec_name()] == "Ctrl+Shift+Comma"@,
        default_bindings()[Action::ToggleTabPosition.spec_name()] == "Ctrl+Shift+P"@,
        default_bindings()[Action::ScrollPageUp.spec_name()] == "Shift+PageUp"@,
        default_bindings()[Action::ScrollPageDown.spec_name()] == "Shift+PageDown"@,
        default_bindings()[Action::ScrollToTop.spec_name()] == "Ctrl+Shift+Home"@,
        default_bindings()[Action::ScrollToBottom.spec_name()] == "Ctrl+Shift+End"@,
        default_bindings()[Action::FontLarger.spec_name()] == "Ctrl+Plus"@,
        default_bindings()[Action::FontSmaller.spec_name()] == "Ctrl+Minus"@,
        default_bindings()[Action::FontReset.spec_name()] == "Ctrl+0"@,
        default_bindings()[Action::Quit.spec_name()] == "Alt+F4"@,
{
    reveal_strlit("new-tab");
    reveal_strlit("close-tab");
    reveal_strlit("next-tab");
    reveal_strlit("previous-tab");
    reveal_strlit("new-window");
    reveal_strlit("copy");
    reveal_strlit("paste");
    reveal_strlit("find");
    reveal_strlit("settings");
    reveal_strlit("toggle-tab-position");
    reveal_strlit("scroll-page-up");
    reveal_strlit("scroll-page-down");
    reveal_strlit("scroll-to-top");
    reveal_strlit("scroll-to-bottom");
    reveal_strlit("font-larger");
    reveal_strlit("font-smaller");
    reveal_strlit("font-reset");
    reveal_strlit("quit");
    assert("new-tab"@.len() != "close-tab"@.len());
    assert("new-tab"@.len() != "next-tab"@.len());
    assert("new-tab"@.len() != "previous-tab"@.len());
    assert("new-tab"@.len() != "new-window"@.len());
    assert("new-tab"@.len() != "copy"@.len());
    assert("new-tab"@.len() != "paste"@.len());
    assert("new-tab"@.len() != "find"@.len());
    assert("new-tab"@.len() != "settings"@.len());
    assert("new-tab"@.len() != "toggle-tab-position"@.len());
    assert("new-tab"@.len() != "scroll-page-up"@.len());
    assert("new-tab"@.len() != "scroll-page-down"@.len());
    assert("new-tab"@.len() != "scroll-to-top"@.len());
    assert("new-tab"@.len() != "scroll-to-bottom"@.len());
    assert("new-tab"@.len() != "font-larger"@.len());
    assert("new-tab"@.len() != "font-smaller"@.len());
    assert("new-tab"@.len() != "font-reset"@.len());
    assert("new-tab"@.len() != "quit"@.len());
    assert("close-tab"@.len() != "next-tab"@.len());
    assert("close-tab"@.len() != "previous-tab"@.len());
    assert("close-tab"@.len() != "new-window"@.len());
    assert("close-tab"@.len() != "copy"@.len());
    assert("close-tab"@.len() != "paste"@.len());
    assert("close-tab"@.len() != "find"@.len());
    assert("close-tab"@.len() != "settings"@.len());
    assert("close-tab"@.len() != "toggle-tab-position"@.len());
    assert("close-tab"@.len() != "scroll-page-up"@.len());
    assert("close-tab"@.len() != "scroll-page-down"@.len());
    assert("close-tab"@.len() != "scroll-to-top"@.len());
    assert("close-tab"@.len() != "scroll-to-bottom"@.len());
    assert("close-tab"@.len() != "font-larger"@.len());
    assert("close-tab"@.len() != "font-smaller"@.len());
    assert("close-tab"@.len() != "font-reset"@.len());
    assert("close-tab"@.len() != "quit"@.len());
    assert("next-tab"@.len() != "previous-tab"@.len());
    assert("next-tab"@.len() != "new-window"@.len());
    assert("next-tab"@.len() != "copy"@.len());
    assert("next-tab"@.len() != "paste"@.len());
    assert("next-tab"@.len() != "find"@.len());
    assert("next-tab"@[0] != "settings"@[0]);
    assert("next-tab"@.len() != "toggle-tab-position"@.len());
    assert("next-tab"@.len() != "scroll-page-up"@.len());
    assert("next-tab"@.len() != "scroll-page-down"@.len());
    assert("next-tab"@.len() != "scroll-to-top"@.len());
    assert("next-tab"@.len() != "scroll-to-bottom"@.len());
    assert("next-tab"@.len() != "font-larger"@.len());
    assert("next-tab"@.len() != "font-smaller"@.len());
    assert("next-tab"@.len() != "font-reset"@.len());
    assert("next-tab"@.len() != "quit"@.len());
    assert("previous-tab"@.len() != "new-window"@.len());
    assert("previous-tab"@.len() != "copy"@.len());
    assert("previous-tab"@.len() != "paste"@.len());
    assert("previous-tab"@.len() != "find"@.len());
    assert("previous-tab"@.len() != "settings"@.len());
    assert("previous-tab"@.len() != "toggle-tab-position"@.len());
    assert("previous-tab"@.len() != "scroll-page-up"@.len());
    assert("previous-tab"@.len() != "scroll-page-down"@.len());
    assert("previous-tab"@.len() != "scroll-to-top"@.len());
    assert("previous-tab"@.len() != "scroll-to-bottom"@.len());
    assert("previous-tab"@.len() != "font-larger"@.len());
    assert("previous-tab"@[0] != "font-smaller"@[0]);
    assert("previous-tab"@.len() != "font-reset"@.len());
    assert("previous-tab"@.len() != "quit"@.len());
    assert("new-window"@.len() != "copy"@.len());
    assert("new-window"@.len() != "paste"@.len());
    assert("new-window"@.len() != "find"@.len());
    assert("new-window"@.len() != "settings"@.len());
    assert("new-window"@.len() != "toggle-tab-position"@.len());
    assert("new-window"@.len() != "scroll-page-up"@.len());
    assert("new-window"@.len() != "scroll-page-down"@.len());
    assert("new-window"@.len() != "scroll-to-top"@.len());
    assert("new-window"@.len() != "scroll-to-bottom"@.len());
    assert("new-window"@.len() != "font-larger"@.len());
    assert("new-window"@.len() != "font-smaller"@.len());
    assert("new-window"@[0] != "font-reset"@[0]);
    assert("new-window"@.len() != "quit"@.len());
    assert("copy"@.len() != "paste"@.len());
    assert("copy"@[0] != "find"@[0]);
    assert("copy"@.len() != "settings"@.len());
    assert("copy"@.len() != "toggle-tab-position"@.len());
    assert("copy"@.len() != "scroll-page-up"@.len());
    assert("copy"@.len() != "scroll-page-down"@.len());
    assert("copy"@.len() != "scroll-to-top"@.len());
    assert("copy"@.len() != "scroll-to-bottom"@.len());
    assert("copy"@.len() != "font-larger"@.len());
    assert("copy"@.len() != "font-smaller"@.len());
    assert("copy"@.len() != "font-reset"@.len());
    assert("copy"@[0] != "quit"@[0]);
    assert("paste"@.len() != "find"@.len());
    assert("paste"@.len() != "settings"@.len());
    assert("paste"@.len() != "toggle-tab-position"@.len());
    assert("paste"@.len() != "scroll-page-up"@.len());
    assert("paste"@.len() != "scroll-page-down"@.len());
    assert("paste"@.len() != "scroll-to-top"@.len());
    assert("paste"@.len() != "scroll-to-bottom"@.len());
    assert("paste"@.len() != "font-larger"@.len());
    assert("paste"@.len() != "font-smaller"@.len());
    assert("paste"@.len() != "font-reset"@.len());
    assert("paste"@.len() != "quit"@.len());
    assert("find"@.len() != "settings"@.len());
    assert("find"@.len() != "toggle-tab-position"@.len());
    assert("find"@.len() != "scroll-page-up"@.len());
    assert("find"@.len() != "scroll-page-down"@.len());
    assert("find"@.len() != "scroll-to-top"@.len());
    assert("find"@.len() != "scroll-to-bottom"@.len());
    assert("find"@.len() != "font-larger"@.len());
    assert("find"@.len() != "font-smaller"@.len());
    assert("find"@.len() != "font-reset"@.len());
    assert("find"@[0] != "quit"@[0]);
    assert("settings"@.len() != "toggle-tab-position"@.len());
    assert("settings"@.len() != "scroll-page-up"@.len());
    assert("settings"@.len() != "scroll-page-down"@.len());
    assert("settings"@.len() != "scroll-to-top"@.len());
    assert("settings"@.len() != "scroll-to-bottom"@.len());
    assert("settings"@.len() != "font-larger"@.len());
    assert("settings"@.len() != "font-smaller"@.len());
    assert("settings"@.len() != "font-reset"@.len());
    assert("settings"@.len() != "quit"@.len());
    assert("toggle-tab-position"@.len() != "scroll-page-up"@.len());
    assert("toggle-tab-position"@.len() != "scroll-page-down"@.len());
    assert("toggle-tab-position"@.len() != "scroll-to-top"@.len());
    assert("toggle-tab-position"@.len() != "scroll-to-bottom"@.len());
    assert("toggle-tab-position"@.len() != "font-larger"@.len());
    assert("toggle-tab-position"@.len() != "font-smaller"@.len());
    assert("toggle-tab-position"@.len() != "font-reset"@.len());
    assert("toggle-tab-position"@.len() != "quit"@.len());
    assert("scroll-page-up"@.len() != "scroll-page-down"@.len());
    assert("scroll-page-up"@.len() != "scroll-to-top"@.len());
    assert("scroll-page-up"@.len() != "scroll-to-bottom"@.len());
    assert("scroll-page-up"@.len() != "font-larger"@.len());
    assert("scroll-page-up"@.len() != "font-smaller"@.len());
    assert("scroll-page-up"@.len() != "font-reset"@.len());
    assert("scroll-page-up"@.len() != "quit"@.len());
    assert("scroll-page-down"@.len() != "scroll-to-top"@.len());
    assert("scroll-page-down"@[7] != "scroll-to-bottom"@[7]);
    assert("scroll-page-down"@.len() != "font-larger"@.len());
    assert("scroll-page-down"@.len() != "font-smaller"@.len());
    assert("scroll-page-down"@.len() != "font-reset"@.len());
    assert("scroll-page-down"@.len() != "quit"@.len());
    assert("scroll-to-top"@.len() != "scroll-to-bottom"@.len());
    assert("scroll-to-top"@.len() != "font-larger"@.len());
    assert("scroll-to-top"@.len() != "font-smaller"@.len());
    assert("scroll-to-top"@.len() != "font-reset"@.len());
    assert("scroll-to-top"@.len() != "quit"@.len());
    assert("scroll-to-bottom"@.len() != "font-larger"@.len());
    assert("scroll-to-bottom"@.len() != "font-smaller"@.len());
    assert("scroll-to-bottom"@.len() != "font-reset"@.len());
    assert("scroll-to-bottom"@.len() != "quit"@.len());
    assert("font-larger"@.len() != "font-smaller"@.len());
    assert("font-larger"@.len() != "font-reset"@.len());
    assert("font-larger"@.len() != "quit"@.len());
    assert("font-smaller"@.len() != "font-reset"@.len());
    assert("font-smaller"@.len() != "quit"@.len());
    assert("font-reset"@.len() != "quit"@.len());
}

} // verus!
