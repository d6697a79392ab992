//! What the settings panel contains, and what clicking it does.
//!
//! The panel is drawn elsewhere, by code that knows a row is a label, a value and a way of
//! being clicked and nothing else. What a row means is here: the rows built from the
//! settings they show, the problems a load reported, and the next value a click moves a
//! setting to. The rows and steps over fractional settings (sizes, opacities, angles,
//! scales) are the host's; this module takes their readouts as text.
use vstd::prelude::*;

use crate::action::Action;
use crate::chord::{chord_parsed, lemma_empty_is_no_chord, Chord};
use crate::config::{CursorSettings, CursorShape, Diagnostic, Severity, TabPosition, TabSettings, MAX_CURSOR_THICKNESS, MIN_CURSOR_THICKNESS};
use crate::keymap::{as_map, Keymap};
use crate::spell::{chars_of, decimal, push_char, push_decimal_chars, push_str_chars, spells, string_of};
use crate::theme::{builtin, spec_builtin, theme_by_slug, by_slug};

verus! {

/// What a row's control does when it is clicked.
#[derive(Clone, Copy, PartialEq, Eq, Debug, Structural)]
pub enum Kind {
    /// Two states. Either half flips it.
    Toggle,
    /// One of several values. The two halves step through the list.
    Choice,
    /// A number. The left half goes down, the right half goes up.
    Step,
    /// A key. Either half asks for the next chord the user presses.
    Chord,
}

/// Which setting a row is: an identity rather than an index, because the rows change with
/// the settings they show.
#[derive(Clone, Copy, PartialEq, Eq, Debug, Structural)]
pub enum Id {
    /// The colour scheme, by slug.
    Theme,
    /// The text scale.
    TextScale,
    /// Whether the system's reduce-motion setting is honoured.
    ReduceMotion,
    /// Whether the system's forced-colours setting is honoured.
    ForcedColors,
    /// How opaque the window is.
    WindowOpacity,
    /// What is painted behind the grid.
    Background,
    /// How much of a background picture shows.
    ImageOpacity,
    /// Which way a background gradient runs.
    GradientAngle,
    /// Whether the window remembers where it was.
    RememberPosition,
    /// Whether the window starts maximized.
    StartMaximized,
    /// Where the tab strip lives.
    TabPosition,
    /// Whether a new tab opens the default profile without asking.
    OpenWithoutAsking,
    /// The grid's family.
    Font,
    /// The grid's size, in points.
    FontSize,
    /// The cursor's shape.
    CursorShape,
    /// Whether the cursor blinks.
    CursorBlink,
    /// The cursor's thickness, for the shapes that have one.
    CursorThickness,
    /// The chord bound to an action.
    Binding(Action),
}

/// One row the panel can draw.
#[derive(Clone, Debug)]
pub struct Setting {
    /// What the row is.
    pub id: Id,
    /// What the row is called.
    pub label: &'static str,
    /// What it is set to, as it should be read.
    pub value: String,
    /// How it is clicked.
    pub kind: Kind,
}

/// One thing the configuration file got wrong.
#[derive(Clone, PartialEq, Eq, Debug)]
pub struct Problem {
    /// What is wrong, in the loader's own words.
    pub text: String,
    /// How serious it is.
    pub severity: Severity,
}

/// A row of the panel: a section heading, something the file got wrong, or something you
/// can set.
#[derive(Clone, Debug)]
pub enum Line {
    /// A section's name, and the rule under it.
    Heading(&'static str),
    /// Something the configuration file got wrong: a row with nothing to click.
    Note(Problem),
    /// A setting.
    Setting(Setting),
}

/// The word a problem's severity is shown as.
pub open spec fn severity_word(severity: Severity) -> Seq<char> {
    match severity {
        Severity::Error => "error"@,
        Severity::Warning => "warning"@,
    }
}

impl Line {
    /// The text to draw: a heading's name, a problem's message, or a setting's label.
    pub open spec fn spec_text(&self) -> Seq<char> {
        match self {
            Line::Heading(t) => t@,
            Line::Note(p) => p.text@,
            Line::Setting(s) => s.label@,
        }
    }

    /// The value to draw: nothing for a heading, the severity for a problem, the setting's
    /// value for a setting.
    pub open spec fn spec_value(&self) -> Seq<char> {
        match self {
            Line::Heading(_) => Seq::empty(),
            Line::Note(p) => severity_word(p.severity),
            Line::Setting(s) => s.value@,
        }
    }

    /// How the row is clicked, nothing for a heading or a problem.
    pub open spec fn spec_kind(&self) -> Option<Kind> {
        match self {
            Line::Setting(s) => Some(s.kind),
            _ => None,
        }
    }

    /// What the row sets, nothing for a heading or a problem.
    pub open spec fn spec_id(&self) -> Option<Id> {
        match self {
            Line::Setting(s) => Some(s.id),
            _ => None,
        }
    }

    /// The text to draw.
    pub fn text(&self) -> (r: &str)
        ensures
            r@ == self.spec_text(),
    {
        match self {
            Line::Heading(t) => *t,
            Line::Note(p) => p.text.as_str(),
            Line::Setting(s) => s.label,
        }
    }

    /// The value to draw.
    pub fn value(&self) -> (r: &str)
        ensures
            r@ == self.spec_value(),
    {
        match self {
            Line::Heading(_) => {
                let r = "";
                proof {
                    reveal_strlit("");
                }
                r
            },
            Line::Note(p) => match p.severity {
                Severity::Error => "error",
                Severity::Warning => "warning",
            },
            Line::Setting(s) => s.value.as_str(),
        }
    }

    /// How the row is clicked.
    pub fn kind(&self) -> (r: Option<Kind>)
        ensures
            r == self.spec_kind(),
    {
        match self {
            Line::Setting(s) => Some(s.kind),
            _ => None,
        }
    }

    /// What the row sets.
    pub fn id(&self) -> (r: Option<Id>)
        ensures
            r == self.spec_id(),
    {
        match self {
            Line::Setting(s) => Some(s.id),
            _ => None,
        }
    }
}

/// What a click asked the caller to do about it.
#[derive(Clone, Copy, PartialEq, Eq, Debug, Structural)]
pub enum Effect {
    /// The row does not move that way, or the click changed nothing.
    Nothing,
    /// The configuration changed. Write it back, and rebuild whatever reads it.
    Changed,
    /// The row wants the next chord the user presses, for this action.
    Capture(Action),
}

/// What the loader found wrong with the file, as rows: a heading and one note per problem
/// in the order they were found, or no rows at all when there is nothing to say.
pub fn problems(diagnostics: &Vec<Diagnostic>) -> (r: Vec<Line>)
    ensures
        diagnostics@.len() == 0 ==> r@.len() == 0,
        diagnostics@.len() > 0 ==> r@.len() == diagnostics@.len() + 1,
        diagnostics@.len() > 0 ==> (r@[0] matches Line::Heading(t) && t@ == "Problems"@),
        forall|k: int|
            0 <= k < diagnostics@.len() ==> match #[trigger] r@[k + 1] {
                Line::Note(p) => p.text@ == diagnostics@[k].message@ && p.severity
                    == diagnostics@[k].severity,
                _ => false,
            },
{
    let mut lines: Vec<Line> = Vec::new();
    if diagnostics.len() == 0 {
        return lines;
    }
    lines.push(Line::Heading("Problems"));
    let mut i: usize = 0;
    while i < diagnostics.len()
        invariant
            i <= diagnostics.len(),
            lines@.len() == i + 1,
            lines@[0] matches Line::Heading(t) && t@ == "Problems"@,
            forall|k: int|
                0 <= k < i ==> match #[trigger] lines@[k + 1] {
                    Line::Note(p) => p.text@ == diagnostics@[k].message@ && p.severity
                        == diagnostics@[k].severity,
                    _ => false,
                },
        decreases diagnostics.len() - i,
    {
        let d = &diagnostics[i];
        lines.push(Line::Note(Problem { text: d.message.clone(), severity: d.severity }));
        i += 1;
    }
    lines
}

// ---- stepping --------------------------------------------------------------------------

/// The next index in a ring of `len`, where no index means "not in the list": a value that
/// is not in the list enters at the end the key is coming from.
pub open spec fn spec_step(len: usize, at: Option<usize>, back: bool) -> usize {
    if len == 0 {
        0
    } else {
        match at {
            None => if back { (len - 1) as usize } else { 0 },
            Some(a) => if back {
                if a == 0 { (len - 1) as usize } else { (a - 1) as usize }
            } else {
                ((a + 1) % (len as int)) as usize
            },
        }
    }
}

/// The next index in a ring of `len`, where `None` means "not in the list".
pub fn step(len: usize, at: Option<usize>, back: bool) -> (r: usize)
    requires
        at matches Some(a) ==> a < usize::MAX,
    ensures
        r == spec_step(len, at, back),
        len > 0 && (at matches Some(a) ==> a < len) ==> r < len,
{
    if len == 0 {
        return 0;
    }
    match at {
        None => if back {
            len - 1
        } else {
            0
        },
        Some(a) => if back {
            if a == 0 {
                len - 1
            } else {
                a - 1
            }
        } else {
            (a + 1) % len
        },
    }
}

/// Stepping forward and then back, or back and then forward, lands on the row it started
/// from.
pub proof fn lemma_step_undoes(len: usize, a: usize)
    requires
        a < len,
        len < usize::MAX,
    ensures
        spec_step(len, Some(spec_step(len, Some(a), false)), true) == a,
        spec_step(len, Some(spec_step(len, Some(a), true)), false) == a,
{
    if a + 1 == len {
        assert((a + 1) % (len as int) == 0) by {
            vstd::arithmetic::div_mod::lemma_mod_self_0(len as int);
        }
    } else {
        assert((a + 1) % (len as int) == a + 1) by {
            vstd::arithmetic::div_mod::lemma_small_mod((a + 1) as nat, len as nat);
        }
    }
    if a == 0 {
        assert((len - 1 + 1) % (len as int) == 0) by {
            vstd::arithmetic::div_mod::lemma_mod_self_0(len as int);
        }
    } else {
        assert((a - 1 + 1) % (len as int) == a) by {
            vstd::arithmetic::div_mod::lemma_small_mod(a as nat, len as nat);
        }
    }
}

// ---- readouts --------------------------------------------------------------------------

/// The uppercase of a character, which can be more than one character.
pub uninterp spec fn uppercase(c: char) -> Seq<char>;

/// The uppercase of a character.
///
/// Calls `char::to_uppercase`. Claimed: the result is a function of the character alone,
/// and an ASCII character is one character, a to z becoming A to Z and the rest staying as
/// they are. What the Unicode tables make of other characters is left unsaid.
#[verifier::external_body]
fn upper(c: char) -> (r: String)
    ensures
        r@ == uppercase(c),
        (c as u32) < 128 ==> r@ == seq![if 'a' <= c <= 'z' { ((c as u32) - 32) as char } else { c }],
{
    c.to_uppercase().collect()
}

/// A kebab-case spelling read as a title: each `-` a space, and the first letter of each
/// word raised.
pub open spec fn title_from(s: Seq<char>, raise: bool) -> Seq<char>
    decreases s.len(),
{
    if s.len() == 0 {
        Seq::empty()
    } else if s[0] == '-' {
        seq![' '] + title_from(s.drop_first(), true)
    } else if raise {
        uppercase(s[0]) + title_from(s.drop_first(), false)
    } else {
        seq![s[0]] + title_from(s.drop_first(), false)
    }
}

/// A config value's spelling with its words' first letters raised: `hollow-block` reads
/// as `Hollow Block`.
pub fn title_case(text: &str) -> (r: String)
    ensures
        r@ == title_from(text@, true),
{
    let chars = chars_of(text);
    let mut out = String::new();
    let mut raise = true;
    let mut i: usize = 0;
    assert(chars@.skip(0) =~= chars@);
    while i < chars.len()
        invariant
            i <= chars.len(),
            chars@ == text@,
            title_from(text@, true) == out@ + title_from(chars@.skip(i as int), raise),
        decreases chars.len() - i,
    {
        let ch = chars[i];
        let ghost before = out@;
        let ghost rest = chars@.skip(i as int);
        assert(rest.drop_first() =~= chars@.skip(i as int + 1));
        if ch == '-' {
            push_char(&mut out, ' ');
            raise = true;
            assert(before + (seq![' '] + title_from(rest.drop_first(), true)) =~= out@
                + title_from(rest.drop_first(), true));
        } else if raise {
            let up = chars_of(upper(ch).as_str());
            let mut j: usize = 0;
            while j < up.len()
                invariant
                    j <= up.len(),
                    up@ == uppercase(ch),
                    out@ == before + up@.take(j as int),
                decreases up.len() - j,
            {
                push_char(&mut out, up[j]);
                assert(out@ =~= before + up@.take(j as int + 1));
                j += 1;
            }
            raise = false;
            assert(up@.take(up.len() as int) =~= up@);
            assert(before + (uppercase(ch) + title_from(rest.drop_first(), false)) =~= out@
                + title_from(rest.drop_first(), false));
        } else {
            push_char(&mut out, ch);
            assert(before + (seq![ch] + title_from(rest.drop_first(), false)) =~= out@
                + title_from(rest.drop_first(), false));
        }
        i += 1;
    }
    assert(chars@.skip(i as int) =~= Seq::<char>::empty());
    assert(out@ + Seq::<char>::empty() =~= out@);
    out
}

/// `On` or `Off`.
pub fn on_off(value: bool) -> (r: String)
    ensures
        r@ == if value { "On"@ } else { "Off"@ },
{
    let mut v: Vec<char> = Vec::new();
    push_str_chars(&mut v, if value { "On" } else { "Off" });
    assert(v@ =~= if value { "On"@ } else { "Off"@ });
    string_of(&v)
}

/// What a setting the system has an answer to reads as: `Follow system`, or `Off`. Not
/// `On`, which beside `Reduce motion` would claim motion is being reduced when the switch
/// only says zet does what the system asks.
pub fn follow(value: bool) -> (r: String)
    ensures
        r@ == if value { "Follow system"@ } else { "Off"@ },
{
    let mut v: Vec<char> = Vec::new();
    push_str_chars(&mut v, if value { "Follow system" } else { "Off" });
    assert(v@ =~= if value { "Follow system"@ } else { "Off"@ });
    string_of(&v)
}

/// The label of an action's binding row.
pub open spec fn action_label(action: Action) -> Seq<char> {
    match action {
        Action::NewTab => "New tab"@,
        Action::CloseTab => "Close tab"@,
        Action::NextTab => "Next tab"@,
        Action::PreviousTab => "Previous tab"@,
        Action::NewWindow => "New window"@,
        Action::Copy => "Copy"@,
        Action::Paste => "Paste"@,
        Action::Find => "Find"@,
        Action::Settings => "Settings"@,
        Action::ToggleTabPosition => "Tab position"@,
        Action::ScrollPageUp => "Scroll up"@,
        Action::ScrollPageDown => "Scroll down"@,
        Action::ScrollToTop => "Scroll to top"@,
        Action::ScrollToBottom => "Scroll to bottom"@,
        Action::FontLarger => "Font larger"@,
        Action::FontSmaller => "Font smaller"@,
        Action::FontReset => "Font reset"@,
        Action::Quit => "Quit"@,
    }
}

/// The label for a binding row, from the action's file name.
pub fn action_name(action: Action) -> (r: &'static str)
    ensures
        r@ == action_label(action),
{
    match action {
        Action::NewTab => "New tab",
        Action::CloseTab => "Close tab",
        Action::NextTab => "Next tab",
        Action::PreviousTab => "Previous tab",
        Action::NewWindow => "New window",
        Action::Copy => "Copy",
        Action::Paste => "Paste",
        Action::Find => "Find",
        Action::Settings => "Settings",
        Action::ToggleTabPosition => "Tab position",
        Action::ScrollPageUp => "Scroll up",
        Action::ScrollPageDown => "Scroll down",
        Action::ScrollToTop => "Scroll to top",
        Action::ScrollToBottom => "Scroll to bottom",
        Action::FontLarger => "Font larger",
        Action::FontSmaller => "Font smaller",
        Action::FontReset => "Font reset",
        Action::Quit => "Quit",
    }
}

/// A setting row.
pub fn setting(id: Id, label: &'static str, value: String, kind: Kind) -> (r: Line)
    ensures
        r matches Line::Setting(s) && s.id == id && s.label == label && s.value@ == value@ && s.kind
            == kind,
{
    Line::Setting(Setting { id, label, value, kind })
}

// ---- rows ------------------------------------------------------------------------------

/// Whether a row is the setting `id`, reading `label` and `value`, clicked as `kind`.
pub open spec fn is_row(line: Line, id: Id, label: Seq<char>, value: Seq<char>, kind: Kind) -> bool {
    line matches Line::Setting(s) && s.id == id && s.label@ == label && s.value@ == value && s.kind
        == kind
}

/// The first chord bound to an action in a list of bindings.
pub open spec fn chord_for(bindings: Seq<(Chord, Action)>, action: Action) -> Option<Chord>
    decreases bindings.len(),
{
    if bindings.len() == 0 {
        None
    } else if bindings[0].1 == action {
        Some(bindings[0].0)
    } else {
        chord_for(bindings.drop_first(), action)
    }
}

/// What an action's binding row reads: the chord that runs it, or `Unbound`.
pub open spec fn binding_value(bindings: Seq<(Chord, Action)>, action: Action) -> Seq<char> {
    match chord_for(bindings, action) {
        Some(c) => c.spec_text(),
        None => "Unbound"@,
    }
}

/// The chord that runs an action, as the row shows it.
fn binding_text(bindings: &Vec<(Chord, Action)>, action: Action) -> (r: String)
    ensures
        r@ == binding_value(bindings@, action),
{
    let mut i: usize = 0;
    assert(bindings@.skip(0) =~= bindings@);
    while i < bindings.len()
        invariant
            i <= bindings.len(),
            chord_for(bindings@, action) == chord_for(bindings@.skip(i as int), action),
        decreases bindings.len() - i,
    {
        assert(bindings@.skip(i as int).drop_first() =~= bindings@.skip(i as int + 1));
        if bindings[i].1 == action {
            return bindings[i].0.to_string();
        }
        i += 1;
    }
    let mut v: Vec<char> = Vec::new();
    push_str_chars(&mut v, "Unbound");
    assert(v@ =~= "Unbound"@);
    string_of(&v)
}

/// The Keys section: a heading, then one row per action in the panel's order, reading the
/// chord that runs it.
pub fn binding_rows(bindings: &Vec<(Chord, Action)>) -> (r: Vec<Line>)
    ensures
        r@.len() == 19,
        r@[0] matches Line::Heading(t) && t@ == "Keys"@,
        forall|k: int|
            0 <= k < 18 ==> #[trigger] is_row(
                r@[k + 1],
                Id::Binding(Action::ALL[k]),
                action_label(Action::ALL[k]),
                binding_value(bindings@, Action::ALL[k]),
                Kind::Chord,
            ),
{
    let mut lines: Vec<Line> = Vec::new();
    lines.push(Line::Heading("Keys"));
    let all = Action::ALL;
    let mut i: usize = 0;
    while i < 18
        invariant
            i <= 18,
            all == Action::ALL,
            lines@.len() == i + 1,
            lines@[0] matches Line::Heading(t) && t@ == "Keys"@,
            forall|k: int|
                0 <= k < i ==> #[trigger] is_row(
                    lines@[k + 1],
                    Id::Binding(Action::ALL[k]),
                    action_label(Action::ALL[k]),
                    binding_value(bindings@, Action::ALL[k]),
                    Kind::Chord,
                ),
        decreases 18 - i,
    {
        let action = all[i];
        lines.push(
            Line::Setting(
                Setting {
                    id: Id::Binding(action),
                    label: action_name(action),
                    value: binding_text(bindings, action),
                    kind: Kind::Chord,
                },
            ),
        );
        i += 1;
    }
    lines
}

/// The Tabs section: where the strip lives, and what a new tab does.
pub fn tabs_rows(tabs: &TabSettings) -> (r: Vec<Line>)
    ensures
        r@.len() == 3,
        r@[0] matches Line::Heading(t) && t@ == "Tabs"@,
        is_row(
            r@[1],
            Id::TabPosition,
            "Position"@,
            title_from(tabs.position.spec_as_str(), true),
            Kind::Choice,
        ),
        is_row(
            r@[2],
            Id::OpenWithoutAsking,
            "Open without asking"@,
            if tabs.open_default_without_asking { "On"@ } else { "Off"@ },
            Kind::Toggle,
        ),
{
    let mut lines: Vec<Line> = Vec::new();
    lines.push(Line::Heading("Tabs"));
    lines.push(setting(Id::TabPosition, "Position", title_case(tabs.position.as_str()), Kind::Choice));
    lines.push(
        setting(
            Id::OpenWithoutAsking,
            "Open without asking",
            on_off(tabs.open_default_without_asking),
            Kind::Toggle,
        ),
    );
    lines
}

/// What is painted behind the grid, as the Appearance section reads it out.
#[derive(Clone, Copy, PartialEq, Eq, Debug, Structural)]
pub enum BackgroundShown {
    /// The theme's flat ground.
    Solid,
    /// A picture, and how much of it shows, as a whole percent.
    Image(u32),
    /// A gradient, and the way it runs, in whole degrees.
    Gradient(u32),
}

/// The Appearance section's settings, as the panel reads them out: the theme by slug, the
/// text scale by the name the host gives it, and the opacities and angle as whole numbers.
#[derive(Clone, Debug)]
pub struct Appearance {
    /// The configured theme's slug.
    pub theme: String,
    /// The text scale, as it reads.
    pub text_scale: String,
    /// Whether the system's reduce-motion setting is honoured.
    pub follow_reduce_motion: bool,
    /// Whether the system's forced-colours setting is honoured.
    pub follow_forced_colors: bool,
    /// What is painted behind the grid.
    pub background: BackgroundShown,
    /// How opaque the window is, as a whole percent.
    pub window_opacity: u32,
    /// Whether the window remembers where it was.
    pub remember_position: bool,
    /// Whether the window starts maximized.
    pub start_maximized: bool,
}

/// The word the configuration file uses for a kind of background.
pub open spec fn background_word(background: BackgroundShown) -> Seq<char> {
    match background {
        BackgroundShown::Solid => "solid"@,
        BackgroundShown::Image(_) => "image"@,
        BackgroundShown::Gradient(_) => "gradient"@,
    }
}

/// The word the configuration file uses for a kind of background.
fn background_kind_word(background: BackgroundShown) -> (r: &'static str)
    ensures
        r@ == background_word(background),
{
    match background {
        BackgroundShown::Solid => "solid",
        BackgroundShown::Image(_) => "image",
        BackgroundShown::Gradient(_) => "gradient",
    }
}

/// Whether the background has a row of its own under the Background row: a picture's
/// opacity or a gradient's angle.
pub open spec fn has_detail(background: BackgroundShown) -> bool {
    !(background is Solid)
}

/// A number followed by a unit.
fn number_with(value: u32, unit: &str) -> (r: String)
    ensures
        r@ == decimal(value as nat) + unit@,
{
    let mut v: Vec<char> = Vec::new();
    push_decimal_chars(&mut v, value as u64);
    push_str_chars(&mut v, unit);
    string_of(&v)
}

/// The Appearance section: the theme, the text scale, the two settings the system has an
/// answer to, the background and, directly under it, the row that belongs to its kind, then
/// the window's opacity and its two switches.
pub fn appearance_rows(appearance: &Appearance) -> (r: Vec<Line>)
    ensures
        r@.len() == if has_detail(appearance.background) { 10nat } else { 9nat },
        r@[0] matches Line::Heading(t) && t@ == "Appearance"@,
        is_row(
            r@[1],
            Id::Theme,
            if is_published(appearance.theme@) { "Theme (as published)"@ } else { "Theme"@ },
            theme_title(appearance.theme@),
            Kind::Choice,
        ),
        is_row(r@[2], Id::TextScale, "Text scale"@, appearance.text_scale@, Kind::Choice),
        is_row(
            r@[3],
            Id::ReduceMotion,
            "Reduce motion"@,
            if appearance.follow_reduce_motion { "Follow system"@ } else { "Off"@ },
            Kind::Toggle,
        ),
        is_row(
            r@[4],
            Id::ForcedColors,
            "Forced colours"@,
            if appearance.follow_forced_colors { "Follow system"@ } else { "Off"@ },
            Kind::Toggle,
        ),
        is_row(
            r@[5],
            Id::Background,
            "Background"@,
            title_from(background_word(appearance.background), true),
            Kind::Choice,
        ),
        appearance.background matches BackgroundShown::Image(p) ==> is_row(
            r@[6],
            Id::ImageOpacity,
            "Image opacity"@,
            decimal(p as nat) + "%"@,
            Kind::Step,
        ),
        appearance.background matches BackgroundShown::Gradient(a) ==> is_row(
            r@[6],
            Id::GradientAngle,
            "Angle"@,
            decimal(a as nat) + "\u{b0}"@,
            Kind::Step,
        ),
        ({
            let k: int = if has_detail(appearance.background) { 7 } else { 6 };
            &&& is_row(
                r@[k],
                Id::WindowOpacity,
                "Window opacity"@,
                decimal(appearance.window_opacity as nat) + "%"@,
                Kind::Step,
            )
            &&& is_row(
                r@[k + 1],
                Id::RememberPosition,
                "Remember position"@,
                if appearance.remember_position { "On"@ } else { "Off"@ },
                Kind::Toggle,
            )
            &&& is_row(
                r@[k + 2],
                Id::StartMaximized,
                "Start maximized"@,
                if appearance.start_maximized { "On"@ } else { "Off"@ },
                Kind::Toggle,
            )
        }),
{
    let mut lines: Vec<Line> = Vec::new();
    lines.push(Line::Heading("Appearance"));
    lines.push(theme_row(appearance.theme.as_str()));
    lines.push(
        setting(Id::TextScale, "Text scale", string_of(&chars_of(appearance.text_scale.as_str())), Kind::Choice),
    );
    lines.push(setting(Id::ReduceMotion, "Reduce motion", follow(appearance.follow_reduce_motion), Kind::Toggle));
    lines.push(setting(Id::ForcedColors, "Forced colours", follow(appearance.follow_forced_colors), Kind::Toggle));
    lines.push(
        setting(Id::Background, "Background", title_case(background_kind_word(appearance.background)), Kind::Choice),
    );
    match appearance.background {
        BackgroundShown::Image(p) => {
            lines.push(setting(Id::ImageOpacity, "Image opacity", number_with(p, "%"), Kind::Step));
        },
        BackgroundShown::Gradient(a) => {
            lines.push(setting(Id::GradientAngle, "Angle", number_with(a, "\u{b0}"), Kind::Step));
        },
        BackgroundShown::Solid => {},
    }
    lines.push(setting(Id::WindowOpacity, "Window opacity", number_with(appearance.window_opacity, "%"), Kind::Step));
    lines.push(setting(Id::RememberPosition, "Remember position", on_off(appearance.remember_position), Kind::Toggle));
    lines.push(setting(Id::StartMaximized, "Start maximized", on_off(appearance.start_maximized), Kind::Toggle));
    lines
}

/// Whether a cursor shape has a thickness: a bar and an underline do, a block and a hollow
/// block are the whole cell.
pub open spec fn has_thickness(shape: CursorShape) -> bool {
    shape == CursorShape::Bar || shape == CursorShape::Underline
}

/// The Terminal section: the family, the size as the host reads it out, the cursor's shape
/// and blink, and its thickness for the shapes that have one.
pub fn terminal_rows(family: &str, size: &str, cursor: &CursorSettings) -> (r: Vec<Line>)
    ensures
        r@.len() == if has_thickness(cursor.shape) { 6nat } else { 5nat },
        r@[0] matches Line::Heading(t) && t@ == "Terminal"@,
        is_row(r@[1], Id::Font, "Font"@, family@, Kind::Choice),
        is_row(r@[2], Id::FontSize, "Size"@, size@, Kind::Step),
        is_row(
            r@[3],
            Id::CursorShape,
            "Cursor"@,
            title_from(cursor.shape.spec_as_str(), true),
            Kind::Choice,
        ),
        is_row(
            r@[4],
            Id::CursorBlink,
            "Blink"@,
            if cursor.blink { "On"@ } else { "Off"@ },
            Kind::Toggle,
        ),
        has_thickness(cursor.shape) ==> is_row(
            r@[5],
            Id::CursorThickness,
            "Thickness"@,
            decimal(cursor.thickness as nat) + " px"@,
            Kind::Step,
        ),
{
    let mut lines: Vec<Line> = Vec::new();
    lines.push(Line::Heading("Terminal"));
    lines.push(setting(Id::Font, "Font", string_of(&chars_of(family)), Kind::Choice));
    lines.push(setting(Id::FontSize, "Size", string_of(&chars_of(size)), Kind::Step));
    lines.push(setting(Id::CursorShape, "Cursor", title_case(cursor.shape.as_str()), Kind::Choice));
    lines.push(setting(Id::CursorBlink, "Blink", on_off(cursor.blink), Kind::Toggle));
    if cursor.shape == CursorShape::Bar || cursor.shape == CursorShape::Underline {
        let mut v: Vec<char> = Vec::new();
        push_decimal_chars(&mut v, cursor.thickness as u64);
        push_str_chars(&mut v, " px");
        lines.push(setting(Id::CursorThickness, "Thickness", string_of(&v), Kind::Step));
    }
    lines
}

/// The display name of a theme slug: the shipped theme's name, or the slug itself when it
/// names none.
pub open spec fn theme_title(slug: Seq<char>) -> Seq<char> {
    match theme_by_slug(slug) {
        Some(t) => t.name@,
        None => slug,
    }
}

/// Whether a slug names a shipped theme that ships as its author published it.
pub open spec fn is_published(slug: Seq<char>) -> bool {
    match theme_by_slug(slug) {
        Some(t) => t.published,
        None => false,
    }
}

/// The Theme row, labelled with whether the palette is zet's own: an imported palette has
/// not been checked for contrast, and the label says so.
pub fn theme_row(slug: &str) -> (r: Line)
    ensures
        is_row(
            r,
            Id::Theme,
            if is_published(slug@) { "Theme (as published)"@ } else { "Theme"@ },
            theme_title(slug@),
            Kind::Choice,
        ),
{
    let found = by_slug(slug);
    let (label, value) = match found {
        Some(t) => (if t.published { "Theme (as published)" } else { "Theme" }, string_of(&chars_of(t.name))),
        None => ("Theme", string_of(&chars_of(slug))),
    };
    setting(Id::Theme, label, value, Kind::Choice)
}

// ---- clicks ----------------------------------------------------------------------------

/// The families the font row offers: the configured one first whether or not the machine
/// has it, then the machine's others in order.
pub open spec fn candidate_list(family: Seq<char>, families: Seq<Seq<char>>) -> Seq<Seq<char>> {
    seq![family] + families.filter(|f: Seq<char>| f != family)
}

/// The names a family is offered under.
pub fn candidates(family: &String, families: &Vec<String>) -> (r: Vec<String>)
    ensures
        r@.map_values(|s: String| s@) == candidate_list(
            family@,
            families@.map_values(|s: String| s@),
        ),
{
    let ghost all = families@.map_values(|s: String| s@);
    let wanted = chars_of(family.as_str());
    let mut list: Vec<String> = Vec::new();
    list.push(family.clone());
    let mut i: usize = 0;
    while i < families.len()
        invariant
            i <= families.len(),
            wanted@ == family@,
            all == families@.map_values(|s: String| s@),
            list@.map_values(|s: String| s@) == seq![family@] + all.take(i as int).filter(
                |f: Seq<char>| f != family@,
            ),
        decreases families.len() - i,
    {
        let ghost before = list@.map_values(|s: String| s@);
        proof {
            assert(all.take(i as int + 1).drop_last() =~= all.take(i as int));
            reveal(Seq::filter);
        }
        if !spells(&wanted, families[i].as_str()) {
            list.push(families[i].clone());
            assert(list@.map_values(|s: String| s@) =~= before.push(all[i as int]));
        }
        assert(list@.map_values(|s: String| s@) =~= seq![family@] + all.take(i as int + 1).filter(
            |f: Seq<char>| f != family@,
        ));
        i += 1;
    }
    assert(all.take(families.len() as int) =~= all);
    list
}

/// Where a slug stands in the list of shipped themes, if it names one.
pub open spec fn slug_index(slug: Seq<char>) -> Option<usize> {
    if exists|i: int| 0 <= i < 8 && (#[trigger] spec_builtin()[i]).slug@ == slug {
        Some((choose|i: int| 0 <= i < 8 && (#[trigger] spec_builtin()[i]).slug@ == slug) as usize)
    } else {
        None
    }
}

/// The theme a click on the theme row moves to, by slug: the next or previous shipped
/// theme, wrapping, and the first or last when the file names one zet does not ship.
pub fn next_theme(slug: &str, back: bool) -> (r: &'static str)
    ensures
        r == spec_builtin()[spec_step(8, slug_index(slug@), back) as int].slug,
{
    let themes = builtin();
    let at = theme_index(slug);
    let next = step(themes.len(), at, back);
    themes[next].slug
}

/// Where a slug stands in the list of shipped themes, if it names one.
fn theme_index(slug: &str) -> (r: Option<usize>)
    ensures
        r == slug_index(slug@),
        r matches Some(i) ==> i < 8,
{
    let themes = builtin();
    let wanted = chars_of(slug);
    let mut i: usize = 0;
    while i < themes.len()
        invariant
            i <= themes.len(),
            themes@ == spec_builtin(),
            wanted@ == slug@,
            forall|j: int| 0 <= j < i ==> (#[trigger] spec_builtin()[j]).slug@ != slug@,
        decreases themes.len() - i,
    {
        if spells(&wanted, themes[i].slug) {
            proof {
                let k = choose|k: int| 0 <= k < 8 && (#[trigger] spec_builtin()[k]).slug@ == slug@;
                crate::theme::lemma_slugs_differ(k, i as int);
            }
            return Some(i);
        }
        i += 1;
    }
    None
}

/// The family a click on the font row moves to: a step through the candidates, which start
/// with the configured family.
pub fn next_family(family: &String, families: &Vec<String>, back: bool) -> (r: String)
    ensures
        ({
            let list = candidate_list(family@, families@.map_values(|s: String| s@));
            r@ == list[spec_step(list.len() as usize, Some(0usize), back) as int]
        }),
{
    let list = candidates(family, families);
    let ghost view = list@.map_values(|s: String| s@);
    assert(view.len() == list@.len());
    assert(view.len() >= 1);
    let k = step(list.len(), Some(0), back);
    assert(view[k as int] == list@[k as int]@);
    list[k].clone()
}

/// The shape a click on the cursor row moves to.
pub fn next_shape(shape: CursorShape, back: bool) -> (r: CursorShape)
    ensures
        r == CursorShape::ALL[spec_step(4, Some(shape_index(shape)), back) as int],
{
    let all = CursorShape::ALL;
    let at: usize = match shape {
        CursorShape::Block => 0,
        CursorShape::Bar => 1,
        CursorShape::Underline => 2,
        CursorShape::HollowBlock => 3,
    };
    all[step(4, Some(at), back)]
}

/// Where a shape stands in the panel's list.
pub open spec fn shape_index(shape: CursorShape) -> usize {
    match shape {
        CursorShape::Block => 0,
        CursorShape::Bar => 1,
        CursorShape::Underline => 2,
        CursorShape::HollowBlock => 3,
    }
}

/// The thickness a click on the thickness row moves to: one pixel either way, stopping at
/// the ends of the range the file accepts rather than wrapping.
pub fn next_thickness(thickness: u8, back: bool) -> (r: u8)
    ensures
        MIN_CURSOR_THICKNESS <= r <= MAX_CURSOR_THICKNESS,
        r == if back {
            if thickness <= MIN_CURSOR_THICKNESS + 1 { MIN_CURSOR_THICKNESS } else if thickness
                > MAX_CURSOR_THICKNESS + 1 { MAX_CURSOR_THICKNESS } else { (thickness - 1) as u8 }
        } else {
            if thickness + 1 <= MIN_CURSOR_THICKNESS { MIN_CURSOR_THICKNESS } else if thickness
                >= MAX_CURSOR_THICKNESS { MAX_CURSOR_THICKNESS } else { (thickness + 1) as u8 }
        },
{
    let next: i32 = thickness as i32 + if back { -1 } else { 1 };
    if next < MIN_CURSOR_THICKNESS as i32 {
        MIN_CURSOR_THICKNESS
    } else if next > MAX_CURSOR_THICKNESS as i32 {
        MAX_CURSOR_THICKNESS
    } else {
        next as u8
    }
}

/// The lowest window opacity the panel steps to, in percent: below it the panel that
/// would raise it again cannot be read.
pub const MIN_OPACITY: u32 = 20;

/// How far one click moves the window opacity, in percent.
pub const OPACITY_STEP: u32 = 10;

/// The lowest picture opacity the panel steps to, in percent.
pub const MIN_IMAGE_OPACITY: u32 = 10;

/// How far one click moves the picture opacity, in percent.
pub const IMAGE_OPACITY_STEP: u32 = 10;

/// A percentage moved one step and kept between the floor and a hundred.
pub open spec fn stepped_percent(percent: u32, back: bool, floor: u32, by: u32) -> u32 {
    let moved: int = if back {
        if percent >= by { percent - by } else { 0 }
    } else {
        percent + by
    };
    if moved < floor { floor } else if moved > 100 { 100 } else { moved as u32 }
}

/// A percentage moved one step in whole percents, so that up and back down lands where it
/// started, and kept between the floor and a hundred.
fn step_percent(percent: u32, back: bool, floor: u32, by: u32) -> (r: u32)
    requires
        floor <= 100,
    ensures
        r == stepped_percent(percent, back, floor, by),
{
    let moved: u32 = if back {
        percent.saturating_sub(by)
    } else {
        percent.saturating_add(by)
    };
    if moved < floor {
        floor
    } else if moved > 100 {
        100
    } else {
        moved
    }
}

/// A step down and then a step up, or up and then down, lands on the percentage it started
/// from wherever neither step reached an end: whole percents come back exactly.
pub proof fn lemma_percent_step_undoes(percent: u32, floor: u32, by: u32)
    requires
        floor <= 100,
        by > 0,
    ensures
        floor + by <= percent <= 100 ==> stepped_percent(stepped_percent(percent, true, floor, by), false, floor, by)
            == percent,
        floor <= percent && percent + by <= 100 ==> stepped_percent(
            stepped_percent(percent, false, floor, by),
            true,
            floor,
            by,
        ) == percent,
{
}

/// The window opacity a click moves to, in whole percents.
pub fn next_window_opacity(percent: u32, back: bool) -> (r: u32)
    ensures
        r == stepped_percent(percent, back, MIN_OPACITY, OPACITY_STEP),
        MIN_OPACITY <= r <= 100,
{
    step_percent(percent, back, MIN_OPACITY, OPACITY_STEP)
}

/// The picture opacity a click moves to, in whole percents.
pub fn next_image_opacity(percent: u32, back: bool) -> (r: u32)
    ensures
        r == stepped_percent(percent, back, MIN_IMAGE_OPACITY, IMAGE_OPACITY_STEP),
        MIN_IMAGE_OPACITY <= r <= 100,
{
    step_percent(percent, back, MIN_IMAGE_OPACITY, IMAGE_OPACITY_STEP)
}

/// The background kinds a click steps through: the current kind first, so neither half can
/// land back on a picture the panel cannot author, and a picture only while the file
/// already names one.
pub open spec fn kinds_offered(image: bool) -> Seq<Seq<char>> {
    if image {
        seq!["image"@, "solid"@, "gradient"@]
    } else {
        seq!["solid"@, "gradient"@]
    }
}

/// The background kind a click on the background row moves to, from the kind the file is
/// in.
pub fn next_background_kind(current: &str, image: bool, back: bool) -> (r: &'static str)
    ensures
        r@ == kinds_offered(image)[spec_step(
            kinds_offered(image).len() as usize,
            if image && current@ == "image"@ { Some(0usize) } else if current@ == "solid"@ {
                Some(if image { 1usize } else { 0usize })
            } else if current@ == "gradient"@ {
                Some(if image { 2usize } else { 1usize })
            } else {
                None
            },
            back,
        ) as int],
{
    let wanted = chars_of(current);
    let at: Option<usize> = if image && spells(&wanted, "image") {
        Some(0)
    } else if spells(&wanted, "solid") {
        Some(if image { 1 } else { 0 })
    } else if spells(&wanted, "gradient") {
        Some(if image { 2 } else { 1 })
    } else {
        None
    };
    if image {
        let kinds = ["image", "solid", "gradient"];
        let k = step(3, at, back);
        proof {
            assert(kinds@ =~= seq!["image", "solid", "gradient"]);
        }
        kinds[k]
    } else {
        let kinds = ["solid", "gradient"];
        let k = step(2, at, back);
        proof {
            assert(kinds@ =~= seq!["solid", "gradient"]);
        }
        kinds[k]
    }
}

// ---- a click, as what it changes ---------------------------------------------------------

/// How many text scales the row offers. The first is "follow the system"; the host holds
/// the values, since they are fractions.
pub const TEXT_SCALE_COUNT: usize = 6;

/// The settings a click reads, as the panel sees them: the Appearance section, where the
/// text scale stands in the row's list if it is in it, the Tabs section, the family, and
/// the cursor.
#[derive(Clone, Debug)]
pub struct Panel {
    /// The Appearance section.
    pub appearance: Appearance,
    /// Where the configured text scale stands among the scales the row offers, if it is one.
    pub text_scale_at: Option<usize>,
    /// The Tabs section.
    pub tabs: TabSettings,
    /// The grid's family, as the file has it.
    pub family: String,
    /// The cursor.
    pub cursor: CursorSettings,
}

/// What a click on a row changes. The host writes it into the file's settings; the two
/// steps whose values are fractions, the font size and a gradient's angle, carry only their
/// direction.
#[derive(Clone, PartialEq, Eq, Debug)]
pub enum Change {
    /// The click has nothing to move.
    Nothing,
    /// The theme, by slug.
    Theme(&'static str),
    /// The text scale, by where it stands in the row's list.
    TextScale(usize),
    /// Whether the system's reduce-motion setting is honoured.
    ReduceMotion(bool),
    /// Whether the system's forced-colours setting is honoured.
    ForcedColors(bool),
    /// The window's opacity, in whole percents.
    WindowOpacity(u32),
    /// The kind of background, by the file's word for it.
    Background(&'static str),
    /// A picture's opacity, in whole percents.
    ImageOpacity(u32),
    /// A gradient's angle, one step down when `back`, else one step up.
    GradientAngle(bool),
    /// Whether the window remembers where it was.
    RememberPosition(bool),
    /// Whether the window starts maximized.
    StartMaximized(bool),
    /// Whether a new tab opens the default profile without asking.
    OpenWithoutAsking(bool),
    /// Where the tab strip lives.
    TabPosition(TabPosition),
    /// The grid's family.
    Font(String),
    /// The grid's size, one point down when `back`, else one point up.
    FontSize(bool),
    /// The cursor's shape.
    CursorShape(CursorShape),
    /// Whether the cursor blinks.
    CursorBlink(bool),
    /// The cursor's thickness.
    CursorThickness(u8),
    /// Wait for the next chord the user presses, for this action.
    Capture(Action),
}

/// What a change means for whoever made the click.
pub open spec fn effect_of(change: Change) -> Effect {
    match change {
        Change::Nothing => Effect::Nothing,
        Change::Capture(a) => Effect::Capture(a),
        _ => Effect::Changed,
    }
}

impl Change {
    /// What the change means for whoever made the click: nothing, a configuration to write
    /// back, or a chord to wait for.
    pub fn effect(&self) -> (r: Effect)
        ensures
            r == effect_of(*self),
    {
        match self {
            Change::Nothing => Effect::Nothing,
            Change::Capture(a) => Effect::Capture(*a),
            _ => Effect::Changed,
        }
    }
}

/// Carry out a click on a row, as what it changes.
///
/// `back` is the left half of a control and the other half is forward; for a toggle and a
/// chord they are the same thing, because a two-state row has no direction. A click on the
/// row of a kind of background the file is not in changes nothing: the row is drawn only
/// while its kind is set, but a click already on its way when the row above changes the
/// kind lands here.
pub fn adjust(panel: &Panel, id: Id, back: bool, families: &Vec<String>) -> (r: Change)
    requires
        panel.text_scale_at matches Some(a) ==> a < TEXT_SCALE_COUNT,
    ensures
        is_choice_row(id) ==> r == choice_change(*panel, id, back),
        match id {
            Id::Theme => r == Change::Theme(
                spec_builtin()[spec_step(8, slug_index(panel.appearance.theme@), back) as int].slug,
            ),
            Id::TextScale => r == Change::TextScale(
                spec_step(TEXT_SCALE_COUNT, panel.text_scale_at, back),
            ),
            Id::ReduceMotion => r == Change::ReduceMotion(!panel.appearance.follow_reduce_motion),
            Id::ForcedColors => r == Change::ForcedColors(!panel.appearance.follow_forced_colors),
            Id::WindowOpacity => r == Change::WindowOpacity(
                stepped_percent(panel.appearance.window_opacity, back, MIN_OPACITY, OPACITY_STEP),
            ),
            Id::Background => r matches Change::Background(k) && ({
                let image = panel.appearance.background is Image;
                let current = background_word(panel.appearance.background);
                k@ == kinds_offered(image)[spec_step(
                    kinds_offered(image).len() as usize,
                    if image && current == "image"@ { Some(0usize) } else if current == "solid"@ {
                        Some(if image { 1usize } else { 0usize })
                    } else if current == "gradient"@ {
                        Some(if image { 2usize } else { 1usize })
                    } else {
                        None
                    },
                    back,
                ) as int]
            }),
            Id::ImageOpacity => r == match panel.appearance.background {
                BackgroundShown::Image(p) => Change::ImageOpacity(
                    stepped_percent(p, back, MIN_IMAGE_OPACITY, IMAGE_OPACITY_STEP),
                ),
                _ => Change::Nothing,
            },
            Id::GradientAngle => r == if panel.appearance.background is Gradient {
                Change::GradientAngle(back)
            } else {
                Change::Nothing
            },
            Id::RememberPosition => r == Change::RememberPosition(!panel.appearance.remember_position),
            Id::StartMaximized => r == Change::StartMaximized(!panel.appearance.start_maximized),
            Id::OpenWithoutAsking => r == Change::OpenWithoutAsking(!panel.tabs.open_default_without_asking),
            Id::TabPosition => r == Change::TabPosition(panel.tabs.position.spec_flipped()),
            Id::Font => r matches Change::Font(f) && ({
                let list = candidate_list(panel.family@, families@.map_values(|s: String| s@));
                f@ == list[spec_step(list.len() as usize, Some(0usize), back) as int]
            }),
            Id::FontSize => r == Change::FontSize(back),
            Id::CursorShape => r == Change::CursorShape(
                CursorShape::ALL[spec_step(4, Some(shape_index(panel.cursor.shape)), back) as int],
            ),
            Id::CursorBlink => r == Change::CursorBlink(!panel.cursor.blink),
            Id::CursorThickness => r == Change::CursorThickness(
                if back {
                    if panel.cursor.thickness <= MIN_CURSOR_THICKNESS + 1 {
                        MIN_CURSOR_THICKNESS
                    } else if panel.cursor.thickness > MAX_CURSOR_THICKNESS + 1 {
                        MAX_CURSOR_THICKNESS
                    } else {
                        (panel.cursor.thickness - 1) as u8
                    }
                } else {
                    if panel.cursor.thickness + 1 <= MIN_CURSOR_THICKNESS {
                        MIN_CURSOR_THICKNESS
                    } else if panel.cursor.thickness >= MAX_CURSOR_THICKNESS {
                        MAX_CURSOR_THICKNESS
                    } else {
                        (panel.cursor.thickness + 1) as u8
                    }
                },
            ),
            Id::Binding(action) => r == Change::Capture(action),
        },
{
    match id {
        Id::Theme => Change::Theme(next_theme(panel.appearance.theme.as_str(), back)),
        Id::TextScale => Change::TextScale(step(TEXT_SCALE_COUNT, panel.text_scale_at, back)),
        Id::ReduceMotion => Change::ReduceMotion(!panel.appearance.follow_reduce_motion),
        Id::ForcedColors => Change::ForcedColors(!panel.appearance.follow_forced_colors),
        Id::WindowOpacity => Change::WindowOpacity(next_window_opacity(panel.appearance.window_opacity, back)),
        Id::Background => {
            let image = match panel.appearance.background {
                BackgroundShown::Image(_) => true,
                _ => false,
            };
            Change::Background(
                next_background_kind(background_kind_word(panel.appearance.background), image, back),
            )
        },
        Id::ImageOpacity => match panel.appearance.background {
            BackgroundShown::Image(p) => Change::ImageOpacity(next_image_opacity(p, back)),
            _ => Change::Nothing,
        },
        Id::GradientAngle => match panel.appearance.background {
            BackgroundShown::Gradient(_) => Change::GradientAngle(back),
            _ => Change::Nothing,
        },
        Id::RememberPosition => Change::RememberPosition(!panel.appearance.remember_position),
        Id::StartMaximized => Change::StartMaximized(!panel.appearance.start_maximized),
        Id::OpenWithoutAsking => Change::OpenWithoutAsking(!panel.tabs.open_default_without_asking),
        Id::TabPosition => Change::TabPosition(panel.tabs.position.flipped()),
        Id::Font => Change::Font(next_family(&panel.family, families, back)),
        Id::FontSize => Change::FontSize(back),
        Id::CursorShape => Change::CursorShape(next_shape(panel.cursor.shape, back)),
        Id::CursorBlink => Change::CursorBlink(!panel.cursor.blink),
        Id::CursorThickness => Change::CursorThickness(next_thickness(panel.cursor.thickness, back)),
        Id::Binding(action) => Change::Capture(action),
    }
}

/// A shipped theme's slug stands where the theme does in the list.
proof fn lemma_slug_index_of(i: int)
    requires
        0 <= i < 8,
    ensures
        slug_index(spec_builtin()[i].slug@) == Some(i as usize),
{
    let k = choose|k: int| 0 <= k < 8 && (#[trigger] spec_builtin()[k]).slug@ == spec_builtin()[i].slug@;
    crate::theme::lemma_slugs_differ(k, i);
}

/// On the theme row, a click one way and then the other lands on the theme it started from,
/// for every theme zet ships.
pub proof fn lemma_theme_row_back_undoes_forward(slug: Seq<char>, first: bool)
    requires
        slug_index(slug) is Some,
    ensures
        spec_builtin()[spec_step(
            8,
            slug_index(spec_builtin()[spec_step(8, slug_index(slug), first) as int].slug@),
            !first,
        ) as int].slug@ == slug,
{
    let i = slug_index(slug).unwrap();
    let j = spec_step(8, Some(i), first);
    lemma_step_undoes(8, i);
    lemma_slug_index_of(j as int);
}

/// On the cursor row, a click one way and then the other lands on the shape it started from.
pub proof fn lemma_shape_row_back_undoes_forward(shape: CursorShape, first: bool)
    ensures
        CursorShape::ALL[spec_step(
            4,
            Some(shape_index(CursorShape::ALL[spec_step(4, Some(shape_index(shape)), first) as int])),
            !first,
        ) as int] == shape,
{
    let i = shape_index(shape);
    lemma_step_undoes(4, i);
    let j = spec_step(4, Some(i), first);
    assert(shape_index(CursorShape::ALL[j as int]) == j);
}

/// What a choice row holds: the theme by slug, where the text scale stands in its list,
/// the cursor's shape, or where the tab strip lives.
pub enum RowValue {
    /// The theme, by slug.
    Theme(Seq<char>),
    /// Where the text scale stands in the row's list, if it is in it.
    TextScale(Option<usize>),
    /// The cursor's shape.
    CursorShape(CursorShape),
    /// Where the tab strip lives.
    TabPosition(TabPosition),
    /// Not a choice row.
    Other,
}

/// Whether a row is one that steps through a list of choices: the theme, the text scale,
/// the cursor's shape and the tab strip's place.
pub open spec fn is_choice_row(id: Id) -> bool {
    id is Theme || id is TextScale || id is CursorShape || id is TabPosition
}

/// What a choice row of the panel holds.
pub open spec fn row_value(panel: Panel, id: Id) -> RowValue {
    match id {
        Id::Theme => RowValue::Theme(panel.appearance.theme@),
        Id::TextScale => RowValue::TextScale(panel.text_scale_at),
        Id::CursorShape => RowValue::CursorShape(panel.cursor.shape),
        Id::TabPosition => RowValue::TabPosition(panel.tabs.position),
        _ => RowValue::Other,
    }
}

/// What a change writes into its row, once the host has written it back.
pub open spec fn written(change: Change) -> RowValue {
    match change {
        Change::Theme(slug) => RowValue::Theme(slug@),
        Change::TextScale(at) => RowValue::TextScale(Some(at)),
        Change::CursorShape(shape) => RowValue::CursorShape(shape),
        Change::TabPosition(position) => RowValue::TabPosition(position),
        _ => RowValue::Other,
    }
}

/// What a click on a choice row changes, as `adjust` answers it.
pub open spec fn choice_change(panel: Panel, id: Id, back: bool) -> Change {
    match id {
        Id::Theme => Change::Theme(spec_builtin()[spec_step(8, slug_index(panel.appearance.theme@), back) as int].slug),
        Id::TextScale => Change::TextScale(spec_step(TEXT_SCALE_COUNT, panel.text_scale_at, back)),
        Id::CursorShape => Change::CursorShape(
            CursorShape::ALL[spec_step(4, Some(shape_index(panel.cursor.shape)), back) as int],
        ),
        Id::TabPosition => Change::TabPosition(panel.tabs.position.spec_flipped()),
        _ => Change::Nothing,
    }
}

/// Whether the row holds one of the values it offers: a theme zet ships, or a text scale in
/// the row's list. Every shape and every place of the tab strip is one.
pub open spec fn row_offers(panel: Panel, id: Id) -> bool {
    &&& id is Theme ==> slug_index(panel.appearance.theme@) is Some
    &&& id is TextScale ==> (panel.text_scale_at matches Some(a) && a < TEXT_SCALE_COUNT)
}

/// Every choice answers both ways: on a choice row holding a value it offers, a click one way
/// changes the row, and a click the other way on the panel the first click was written back
/// into returns the row to the value it started from.
pub proof fn lemma_every_choice_answers_both_ways(panel: Panel, after: Panel, id: Id, back: bool)
    requires
        is_choice_row(id),
        row_offers(panel, id),
        row_value(after, id) == written(choice_change(panel, id, back)),
    ensures
        effect_of(choice_change(panel, id, back)) == Effect::Changed,
        written(choice_change(panel, id, back)) != row_value(panel, id),
        written(choice_change(after, id, !back)) == row_value(panel, id),
{
    match id {
        Id::Theme => {
            let slug = panel.appearance.theme@;
            let i = slug_index(slug).unwrap();
            let j = spec_step(8, Some(i), back);
            lemma_theme_row_back_undoes_forward(slug, back);
            lemma_step_undoes(8, i);
            assert(spec_builtin()[i as int].slug@ == slug);
            crate::theme::lemma_slugs_differ(i as int, j as int);
            assert(after.appearance.theme@ == spec_builtin()[j as int].slug@);
        },
        Id::TextScale => {
            let a = panel.text_scale_at.unwrap();
            lemma_step_undoes(TEXT_SCALE_COUNT, a);
        },
        Id::CursorShape => {
            lemma_shape_row_back_undoes_forward(panel.cursor.shape, back);
        },
        Id::TabPosition => {
            crate::config::lemma_flip_twice(panel.tabs.position);
        },
        _ => {},
    }
}

// ---- binding a chord -------------------------------------------------------------------

/// A keymap's chord with `chord` taken off it: an entry whose chord parses to it is
/// emptied, which is the file's way of saying the action is unbound.
pub open spec fn without_chord(text: Seq<char>, chord: Chord) -> Seq<char> {
    if chord_parsed(text) == Some(chord) {
        Seq::empty()
    } else {
        text
    }
}

/// A keymap with `chord` taken off every entry that held it.
pub open spec fn unbound_from(m: Map<Seq<char>, Seq<char>>, chord: Chord) -> Map<Seq<char>, Seq<char>> {
    Map::new(|k: Seq<char>| m.contains_key(k), |k: Seq<char>| without_chord(m[k], chord))
}

/// Emptying the matching chords entry by entry empties them in the map.
proof fn lemma_unbind_pairs(
    before: Seq<(Seq<char>, Seq<char>)>,
    after: Seq<(Seq<char>, Seq<char>)>,
    chord: Chord,
)
    requires
        before.len() == after.len(),
        forall|j: int|
            0 <= j < before.len() ==> (#[trigger] after[j]).0 == before[j].0 && after[j].1
                == without_chord(before[j].1, chord),
    ensures
        as_map(after) == unbound_from(as_map(before), chord),
    decreases before.len(),
{
    if before.len() > 0 {
        let b = before.drop_last();
        let a = after.drop_last();
        assert forall|j: int| 0 <= j < b.len() implies (#[trigger] a[j]).0 == b[j].0 && a[j].1
            == without_chord(b[j].1, chord) by {
            assert(a[j] == after[j] && b[j] == before[j]);
        }
        lemma_unbind_pairs(b, a, chord);
        assert(as_map(after) =~= unbound_from(as_map(before), chord));
    }
}

/// Bind a chord to an action. The chord is taken off any entry that held it first, which is
/// left in the file with nothing in it rather than dropped: an action the file does not
/// name keeps its default chord, and the user took this one away.
pub fn bind(keys: &mut Keymap, action: Action, chord: Chord)
    requires
        old(keys).wf(),
    ensures
        final(keys).wf(),
        final(keys).spec_map() == unbound_from(old(keys).spec_map(), chord).insert(
            action.spec_name(),
            chord.spec_text(),
        ),
{
    let text = chord.to_string();
    let ghost before = keys.pairs();
    let mut i: usize = 0;
    while i < keys.len()
        invariant
            keys.wf(),
            i <= keys.pairs().len(),
            keys.pairs().len() == before.len(),
            forall|j: int|
                0 <= j < i ==> (#[trigger] keys.pairs()[j]).0 == before[j].0 && keys.pairs()[j].1
                    == without_chord(before[j].1, chord),
            forall|j: int| i <= j < before.len() ==> #[trigger] keys.pairs()[j] == before[j],
        decreases before.len() - i,
    {
        let held = match Chord::parse(keys.chord_at(i).as_str()) {
            Ok(parsed) => parsed.matches(chord.mods, chord.key),
            Err(_) => false,
        };
        if held {
            proof {
                lemma_empty_is_no_chord();
            }
            keys.clear_at(i);
        }
        i += 1;
    }
    proof {
        lemma_unbind_pairs(before, keys.pairs(), chord);
    }
    keys.insert(action.name(), text.as_str());
}

/// After a chord is bound to an action, no other action's entry holds a chord that parses
/// to it: a chord runs one thing.
pub proof fn lemma_bound_chord_runs_one_action(
    m: Map<Seq<char>, Seq<char>>,
    action: Action,
    chord: Chord,
    other: Seq<char>,
)
    requires
        other != action.spec_name(),
        unbound_from(m, chord).insert(action.spec_name(), chord.spec_text()).contains_key(other),
    ensures
        chord_parsed(unbound_from(m, chord).insert(action.spec_name(), chord.spec_text())[other])
            != Some(chord),
{
    lemma_empty_is_no_chord();
}

} // verus!
