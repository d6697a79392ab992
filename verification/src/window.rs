//! What one window holds beside its terminals: the selection being dragged out, the theme it
//! is drawn in, whether its cursor blinks, and the step each action takes, with what a copy
//! and a closed tab ask of the host.
use vstd::prelude::*;

use crate::action::Action;
use crate::command::Command;
use crate::find::Pos;
use crate::theme::{by_slug, contrast_theme, default_theme, spec_zet_contrast, spec_zet_dark, theme_by_slug, Theme};

verus! {

/// A selection being dragged out: where the button went down, and where it is now.
#[derive(Clone, Copy, PartialEq, Eq, Debug, Structural)]
pub struct Drag {
    /// The cell the drag started on.
    pub anchor: Pos,
    /// The cell the pointer is on.
    pub head: Pos,
}

/// The pointer's part in a window: the selection, if there is one.
#[derive(Clone, Copy, PartialEq, Eq, Debug, Structural)]
pub struct Pointer {
    drag: Option<Drag>,
}

impl Pointer {
    /// What is selected, if anything.
    pub closed spec fn spec_drag(self) -> Option<Drag> {
        self.drag
    }

    /// Nothing selected.
    pub fn new() -> (r: Pointer)
        ensures
            r.spec_drag() is None,
    {
        Pointer { drag: None }
    }

    /// What the user has selected, if anything.
    pub fn selection(&self) -> (r: Option<Drag>)
        ensures
            r == self.spec_drag(),
    {
        self.drag
    }

    /// Begin a selection at a cell.
    pub fn select_from(&mut self, at: Pos)
        ensures
            final(self).spec_drag() == Some(Drag { anchor: at, head: at }),
    {
        self.drag = Some(Drag { anchor: at, head: at });
    }

    /// Extend a selection to a cell. Nothing happens when no drag is in progress, so a host
    /// that forwards every motion does not have to know whether the button is down.
    pub fn select_to(&mut self, at: Pos)
        ensures
            final(self).spec_drag() == match old(self).spec_drag() {
                Some(d) => Some(Drag { anchor: d.anchor, head: at }),
                None => None,
            },
    {
        match self.drag {
            Some(d) => {
                self.drag = Some(Drag { anchor: d.anchor, head: at });
            },
            None => {},
        }
    }

    /// End a selection. The highlight stays; only the gesture is over. A click with no drag
    /// is a click rather than a one-cell selection, and leaves nothing behind.
    pub fn select_end(&mut self)
        ensures
            final(self).spec_drag() == match old(self).spec_drag() {
                Some(d) => if d.anchor == d.head { None } else { Some(d) },
                None => None,
            },
    {
        match self.drag {
            Some(d) => {
                if d.anchor == d.head {
                    self.drag = None;
                }
            },
            None => {},
        }
    }

    /// Throw the selection away, as switching or closing a tab does: a selection belongs to
    /// the terminal it was made in.
    pub fn select_none(&mut self)
        ensures
            final(self).spec_drag() is None,
    {
        self.drag = None;
    }
}

impl Default for Pointer {
    fn default() -> (r: Pointer)
        ensures
            r.spec_drag() is None,
    {
        Pointer::new()
    }
}

/// The theme a window is drawn in: the contrast theme while the system forces colours, which
/// outranks the user's choice; otherwise the configured one, or zet dark when the file names
/// none zet ships.
pub open spec fn shown(slug: Seq<char>, forced: bool) -> Theme {
    if forced {
        spec_zet_contrast()
    } else {
        match theme_by_slug(slug) {
            Some(t) => t,
            None => spec_zet_dark(),
        }
    }
}

/// The theme a window is drawn in.
pub fn shown_theme(slug: &str, forced: bool) -> (r: Theme)
    ensures
        r == shown(slug@, forced),
{
    if forced {
        contrast_theme()
    } else {
        match by_slug(slug) {
            Some(t) => t,
            None => default_theme(),
        }
    }
}

/// Whether the cursor blinks: the setting says so and the system has not asked for as
/// little movement as possible. The setting itself is the user's and is left alone.
pub fn blinks(setting: bool, reduce_motion: bool) -> (r: bool)
    ensures
        r == (setting && !reduce_motion),
{
    setting && !reduce_motion
}

/// What a copy asks of the host: the selected text, unless there is none or it is empty,
/// because putting the empty string on the clipboard would throw away what was there.
pub fn copy_command(selected: Option<String>) -> (r: Option<Command>)
    ensures
        r == match selected {
            Some(t) => if t@.len() > 0 { Some(Command::Copy(t)) } else { None },
            None => None::<Command>,
        },
{
    match selected {
        Some(t) => if t.unicode_len() > 0 {
            Some(Command::Copy(t))
        } else {
            None
        },
        None => None,
    }
}

/// What closing a tab asks of the host: to quit when it was the last one.
pub fn close_commands(was_last: bool) -> (r: Vec<Command>)
    ensures
        r@ == if was_last { seq![Command::Quit] } else { Seq::<Command>::empty() },
{
    let mut v: Vec<Command> = Vec::new();
    if was_last {
        v.push(Command::Quit);
    }
    proof {
        if was_last {
            assert(v@ =~= seq![Command::Quit]);
        } else {
            assert(v@ =~= Seq::<Command>::empty());
        }
    }
    v
}

/// How many lines one page of scrolling covers.
pub const PAGE: i32 = 20;

/// What carrying out an action takes. The tabs, their terminals and the clipboard are the
/// host's, so the host does each step; which step an action is, is decided here.
#[derive(Clone, PartialEq, Eq, Debug)]
pub enum Step {
    /// Nothing: the action's overlay is drawn by the window, which holds its state.
    Nothing,
    /// Open a tab at the active tab's size, or the default size when none is open.
    OpenTab,
    /// Close the active tab, and ask to quit when it was the last.
    CloseActiveTab,
    /// Make the next tab active, wrapping past the last.
    NextTab,
    /// Make the previous tab active, wrapping past the first.
    PreviousTab,
    /// Copy what is selected, if anything is.
    Copy,
    /// Ask the host for something only it can do.
    Ask(Command),
    /// Move the tab strip to the other edge.
    FlipTabs,
    /// Scroll the active terminal by this many lines, up when positive; the most
    /// negative number reaches the top of the scrollback.
    Scroll(i32),
    /// Scroll the active terminal back to the bottom.
    ScrollToBottom,
    /// Nudge the font a point larger.
    FontLarger,
    /// Nudge the font a point smaller.
    FontSmaller,
    /// Take the nudge away.
    FontReset,
}

/// What carrying out `action` takes.
pub open spec fn step_for(action: Action) -> Step {
    match action {
        Action::NewTab => Step::OpenTab,
        Action::CloseTab => Step::CloseActiveTab,
        Action::NextTab => Step::NextTab,
        Action::PreviousTab => Step::PreviousTab,
        Action::NewWindow => Step::Ask(Command::NewWindow),
        Action::Copy => Step::Copy,
        Action::Paste => Step::Ask(Command::Paste),
        Action::Find => Step::Nothing,
        Action::Settings => Step::Nothing,
        Action::ToggleTabPosition => Step::FlipTabs,
        Action::ScrollPageUp => Step::Scroll(PAGE),
        Action::ScrollPageDown => Step::Scroll((-PAGE) as i32),
        Action::ScrollToTop => Step::Scroll(i32::MIN),
        Action::ScrollToBottom => Step::ScrollToBottom,
        Action::FontLarger => Step::FontLarger,
        Action::FontSmaller => Step::FontSmaller,
        Action::FontReset => Step::FontReset,
        Action::Quit => Step::Ask(Command::Quit),
    }
}

/// What carrying out `action` takes.
pub fn plan(action: Action) -> (r: Step)
    ensures
        r == step_for(action),
{
    match action {
        Action::NewTab => Step::OpenTab,
        Action::CloseTab => Step::CloseActiveTab,
        Action::NextTab => Step::NextTab,
        Action::PreviousTab => Step::PreviousTab,
        Action::NewWindow => Step::Ask(Command::NewWindow),
        Action::Copy => Step::Copy,
        Action::Paste => Step::Ask(Command::Paste),
        Action::Find => Step::Nothing,
        Action::Settings => Step::Nothing,
        Action::ToggleTabPosition => Step::FlipTabs,
        Action::ScrollPageUp => Step::Scroll(PAGE),
        Action::ScrollPageDown => Step::Scroll(-PAGE),
        Action::ScrollToTop => Step::Scroll(i32::MIN),
        Action::ScrollToBottom => Step::ScrollToBottom,
        Action::FontLarger => Step::FontLarger,
        Action::FontSmaller => Step::FontSmaller,
        Action::FontReset => Step::FontReset,
        Action::Quit => Step::Ask(Command::Quit),
    }
}

/// With colours not forced, a window is drawn in the theme its configuration names whenever
/// that is a theme zet ships, and in zet dark otherwise; with colours forced, in the
/// contrast theme whatever the configuration names.
pub proof fn lemma_the_named_theme_is_shown(slug: Seq<char>, forced: bool, t: Theme)
    ensures
        !forced && theme_by_slug(slug) == Some(t) ==> shown(slug, forced) == t,
        !forced && theme_by_slug(slug) is Some ==> shown(slug, forced).slug@ == slug,
        !forced && theme_by_slug(slug) is None ==> shown(slug, forced) == spec_zet_dark(),
        forced ==> shown(slug, forced) == spec_zet_contrast(),
{
}

} // verus!
