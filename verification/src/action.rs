//! The things a key can be bound to.
//!
//! The names are the ones in the config file's `[keys]` table, so this enum and
//! [`crate::config::ACTIONS`] are two spellings of one list.
use vstd::prelude::*;

use crate::spell::{chars_of, spells};

verus! {

/// Something a key can be bound to.
#[derive(Clone, Copy, PartialEq, Eq, Debug, Structural)]
pub enum Action {
    /// Open a tab with the default profile.
    NewTab,
    /// Close the active tab.
    CloseTab,
    /// Move to the next tab, wrapping.
    NextTab,
    /// Move to the previous tab, wrapping.
    PreviousTab,
    /// Open a second window.
    NewWindow,
    /// Put the selection on the clipboard.
    Copy,
    /// Take the clipboard and send it to the active session.
    Paste,
    /// Open the find bar over the grid.
    Find,
    /// Open the settings panel.
    Settings,
    /// Move the tab strip between the titlebar and the left rail.
    ToggleTabPosition,
    /// Scroll up by a screen.
    ScrollPageUp,
    /// Scroll down by a screen.
    ScrollPageDown,
    /// Scroll to the oldest line still kept.
    ScrollToTop,
    /// Return to the live screen.
    ScrollToBottom,
    /// Grow the terminal font.
    FontLarger,
    /// Shrink the terminal font.
    FontSmaller,
    /// Return the terminal font to the configured size.
    FontReset,
    /// Close the window.
    Quit,
}

impl Action {
    /// Every action, in the order the settings panel lists them.
    pub const ALL: [Action; 18] = [
        Action::NewTab,
        Action::CloseTab,
        Action::NextTab,
        Action::PreviousTab,
        Action::NewWindow,
        Action::Copy,
        Action::Paste,
        Action::Find,
        Action::Settings,
        Action::ToggleTabPosition,
        Action::ScrollPageUp,
        Action::ScrollPageDown,
        Action::ScrollToTop,
        Action::ScrollToBottom,
        Action::FontLarger,
        Action::FontSmaller,
        Action::FontReset,
        Action::Quit,
    ];

    /// The name written in the config file.
    pub open spec fn spec_name(self) -> Seq<char> {
        match self {
            Action::NewTab => "new-tab"@,
            Action::CloseTab => "close-tab"@,
            Action::NextTab => "next-tab"@,
            Action::PreviousTab => "previous-tab"@,
            Action::NewWindow => "new-window"@,
            Action::Copy => "copy"@,
            Action::Paste => "paste"@,
            Action::Find => "find"@,
            Action::Settings => "settings"@,
            Action::ToggleTabPosition => "toggle-tab-position"@,
            Action::ScrollPageUp => "scroll-page-up"@,
            Action::ScrollPageDown => "scroll-page-down"@,
            Action::ScrollToTop => "scroll-to-top"@,
            Action::ScrollToBottom => "scroll-to-bottom"@,
            Action::FontLarger => "font-larger"@,
            Action::FontSmaller => "font-smaller"@,
            Action::FontReset => "font-reset"@,
            Action::Quit => "quit"@,
        }
    }

    /// The name written in the config file.
    pub fn name(self) -> (r: &'static str)
        ensures
            r@ == self.spec_name(),
    {
        match self {
            Action::NewTab => "new-tab",
            Action::CloseTab => "close-tab",
            Action::NextTab => "next-tab",
            Action::PreviousTab => "previous-tab",
            Action::NewWindow => "new-window",
            Action::Copy => "copy",
            Action::Paste => "paste",
            Action::Find => "find",
            Action::Settings => "settings",
            Action::ToggleTabPosition => "toggle-tab-position",
            Action::ScrollPageUp => "scroll-page-up",
            Action::ScrollPageDown => "scroll-page-down",
            Action::ScrollToTop => "scroll-to-top",
            Action::ScrollToBottom => "scroll-to-bottom",
            Action::FontLarger => "font-larger",
            Action::FontSmaller => "font-smaller",
            Action::FontReset => "font-reset",
            Action::Quit => "quit",
        }
    }

    /// The action a config file named, or `None` for a name nothing knows. Names are
    /// case-sensitive.
    pub fn from_name(name: &str) -> (r: Option<Action>)
        ensures
            r == action_named(name@),
    {
        let chars = chars_of(name);
        let all = Action::ALL;
        let mut i: usize = 0;
        while i < 18
            invariant
                i <= 18,
                all == Action::ALL,
                chars@ == name@,
                forall|j: int| 0 <= j < i ==> (#[trigger] all[j]).spec_name() != name@,
            decreases 18 - i,
        {
            let action = all[i];
            if spells(&chars, action.name()) {
                proof {
                    let other = choose|a: Action| a.spec_name() == name@;
                    lemma_names_differ(other, action);
                }
                return Some(action);
            }
            i += 1;
        }
        proof {
            assert forall|a: Action| a.spec_name() != name@ by {
                lemma_every_action_is_listed(a);
            }
        }
        None
    }
}

/// The action a name names, if any.
pub open spec fn action_named(name: Seq<char>) -> Option<Action> {
    if exists|a: Action| a.spec_name() == name {
        Some(choose|a: Action| a.spec_name() == name)
    } else {
        None
    }
}

/// Every action appears in `Action::ALL`.
pub proof fn lemma_every_action_is_listed(a: Action)
    ensures
        exists|i: int| 0 <= i < 18 && Action::ALL[i] == a,
{
    match a {
        Action::NewTab => assert(Action::ALL[0] == a),
        Action::CloseTab => assert(Action::ALL[1] == a),
        Action::NextTab => assert(Action::ALL[2] == a),
        Action::PreviousTab => assert(Action::ALL[3] == a),
        Action::NewWindow => assert(Action::ALL[4] == a),
        Action::Copy => assert(Action::ALL[5] == a),
        Action::Paste => assert(Action::ALL[6] == a),
        Action::Find => assert(Action::ALL[7] == a),
        Action::Settings => assert(Action::ALL[8] == a),
        Action::ToggleTabPosition => assert(Action::ALL[9] == a),
        Action::ScrollPageUp => assert(Action::ALL[10] == a),
        Action::ScrollPageDown => assert(Action::ALL[11] == a),
        Action::ScrollToTop => assert(Action::ALL[12] == a),
        Action::ScrollToBottom => assert(Action::ALL[13] == a),
        Action::FontLarger => assert(Action::ALL[14] == a),
        Action::FontSmaller => assert(Action::ALL[15] == a),
        Action::FontReset => assert(Action::ALL[16] == a),
        Action::Quit => assert(Action::ALL[17] == a),
    }
}

/// No two actions share a name.
pub proof fn lemma_names_differ(a: Action, b: Action)
    ensures
        a.spec_name() == b.spec_name() ==> a == b,
{
    reveal_strlit("new-tab");
    reveal_strlit("close-tab");
    reveal_strlit("next-tab");
    reveal_strlit("previous-tab");
    reveal_strlit("new-window");
    reveal_strlit("copy");
    reveal_strlit("paste");
    reveal_strlit("find");
    reveal_strlit("settings");
    reveal_strlit("toggle-tab-position");
    reveal_strlit("scroll-page-up");
    reveal_strlit("scroll-page-down");
    reveal_strlit("scroll-to-top");
    reveal_strlit("scroll-to-bottom");
    reveal_strlit("font-larger");
    reveal_strlit("font-smaller");
    reveal_strlit("font-reset");
    reveal_strlit("quit");
    match a {
        Action::NewTab => {
            match b {
                Action::NewTab => {},
                Action::CloseTab => assert("new-tab"@.len() != "close-tab"@.len()),
                Action::NextTab => assert("new-tab"@.len() != "next-tab"@.len()),
                Action::PreviousTab => assert("new-tab"@.len() != "previous-tab"@.len()),
                Action::NewWindow => assert("new-tab"@.len() != "new-window"@.len()),
                Action::Copy => assert("new-tab"@.len() != "copy"@.len()),
                Action::Paste => assert("new-tab"@.len() != "paste"@.len()),
                Action::Find => assert("new-tab"@.len() != "find"@.len()),
                Action::Settings => assert("new-tab"@.len() != "settings"@.len()),
                Action::ToggleTabPosition => assert("new-tab"@.len() != "toggle-tab-position"@.len()),
                Action::ScrollPageUp => assert("new-tab"@.len() != "scroll-page-up"@.len()),
                Action::ScrollPageDown => assert("new-tab"@.len() != "scroll-page-down"@.len()),
                Action::ScrollToTop => assert("new-tab"@.len() != "scroll-to-top"@.len()),
                Action::ScrollToBottom => assert("new-tab"@.len() != "scroll-to-bottom"@.len()),
                Action::FontLarger => assert("new-tab"@.len() != "font-larger"@.len()),
                Action::FontSmaller => assert("new-tab"@.len() != "font-smaller"@.len()),
                Action::FontReset => assert("new-tab"@.len() != "font-reset"@.len()),
                Action::Quit => assert("new-tab"@.len() != "quit"@.len()),
            }
        },
        Action::CloseTab => {
            match b {
                Action::NewTab => assert("close-tab"@.len() != "new-tab"@.len()),
                Action::CloseTab => {},
                Action::NextTab => assert("close-tab"@.len() != "next-tab"@.len()),
                Action::PreviousTab => assert("close-tab"@.len() != "previous-tab"@.len()),
                Action::NewWindow => assert("close-tab"@.len() != "new-window"@.len()),
                Action::Copy => assert("close-tab"@.len() != "copy"@.len()),
                Action::Paste => assert("close-tab"@.len() != "paste"@.len()),
                Action::Find => assert("close-tab"@.len() != "find"@.len()),
                Action::Settings => assert("close-tab"@.len() != "settings"@.len()),
                Action::ToggleTabPosition => assert("close-tab"@.len() != "toggle-tab-position"@.len()),
                Action::ScrollPageUp => assert("close-tab"@.len() != "scroll-page-up"@.len()),
                Action::ScrollPageDown => assert("close-tab"@.len() != "scroll-page-down"@.len()),
                Action::ScrollToTop => assert("close-tab"@.len() != "scroll-to-top"@.len()),
                Action::ScrollToBottom => assert("close-tab"@.len() != "scroll-to-bottom"@.len()),
                Action::FontLarger => assert("close-tab"@.len() != "font-larger"@.len()),
                Action::FontSmaller => assert("close-tab"@.len() != "font-smaller"@.len()),
                Action::FontReset => assert("close-tab"@.len() != "font-reset"@.len()),
                Action::Quit => assert("close-tab"@.len() != "quit"@.len()),
            }
        },
        Action::NextTab => {
            match b {
                Action::NewTab => assert("next-tab"@.len() != "new-tab"@.len()),
                Action::CloseTab => assert("next-tab"@.len() != "close-tab"@.len()),
                Action::NextTab => {},
                Action::PreviousTab => assert("next-tab"@.len() != "previous-tab"@.len()),
                Action::NewWindow => assert("next-tab"@.len() != "new-window"@.len()),
                Action::Copy => assert("next-tab"@.len() != "copy"@.len()),
                Action::Paste => assert("next-tab"@.len() != "paste"@.len()),
                Action::Find => assert("next-tab"@.len() != "find"@.len()),
                Action::Settings => assert("next-tab"@[0] != "settings"@[0]),
                Action::ToggleTabPosition => assert("next-tab"@.len() != "toggle-tab-position"@.len()),
                Action::ScrollPageUp => assert("next-tab"@.len() != "scroll-page-up"@.len()),
                Action::ScrollPageDown => assert("next-tab"@.len() != "scroll-page-down"@.len()),
                Action::ScrollToTop => assert("next-tab"@.len() != "scroll-to-top"@.len()),
                Action::ScrollToBottom => assert("next-tab"@.len() != "scroll-to-bottom"@.len()),
                Action::FontLarger => assert("next-tab"@.len() != "font-larger"@.len()),
                Action::FontSmaller => assert("next-tab"@.len() != "font-smaller"@.len()),
                Action::FontReset => assert("next-tab"@.len() != "font-reset"@.len()),
                Action::Quit => assert("next-tab"@.len() != "quit"@.len()),
            }
        },
        Action::PreviousTab => {
            match b {
                Action::NewTab => assert("previous-tab"@.len() != "new-tab"@.len()),
                Action::CloseTab => assert("previous-tab"@.len() != "close-tab"@.len()),
                Action::NextTab => assert("previous-tab"@.len() != "next-tab"@.len()),
                Action::PreviousTab => {},
                Action::NewWindow => assert("previous-tab"@.len() != "new-window"@.len()),
                Action::Copy => assert("previous-tab"@.len() != "copy"@.len()),
                Action::Paste => assert("previous-tab"@.len() != "paste"@.len()),
                Action::Find => assert("previous-tab"@.len() != "find"@.len()),
                Action::Settings => assert("previous-tab"@.len() != "settings"@.len()),
                Action::ToggleTabPosition => assert("previous-tab"@.len() != "toggle-tab-position"@.len()),
                Action::ScrollPageUp => assert("previous-tab"@.len() != "scroll-page-up"@.len()),
                Action::ScrollPageDown => assert("previous-tab"@.len() != "scroll-page-down"@.len()),
                Action::ScrollToTop => assert("previous-tab"@.len() != "scroll-to-top"@.len()),
                Action::ScrollToBottom => assert("previous-tab"@.len() != "scroll-to-bottom"@.len()),
                Action::FontLarger => assert("previous-tab"@.len() != "font-larger"@.len()),
                Action::FontSmaller => assert("previous-tab"@[0] != "font-smaller"@[0]),
                Action::FontReset => assert("previous-tab"@.len() != "font-reset"@.len()),
                Action::Quit => assert("previous-tab"@.len() != "quit"@.len()),
            }
        },
        Action::NewWindow => {
            match b {
                Action::NewTab => assert("new-window"@.len() != "new-tab"@.len()),
                Action::CloseTab => assert("new-window"@.len() != "close-tab"@.len()),
                Action::NextTab => assert("new-window"@.len() != "next-tab"@.len()),
                Action::PreviousTab => assert("new-window"@.len() != "previous-tab"@.len()),
                Action::NewWindow => {},
                Action::Copy => assert("new-window"@.len() != "copy"@.len()),
                Action::Paste => assert("new-window"@.len() != "paste"@.len()),
                Action::Find => assert("new-window"@.len() != "find"@.len()),
                Action::Settings => assert("new-window"@.len() != "settings"@.len()),
                Action::ToggleTabPosition => assert("new-window"@.len() != "toggle-tab-position"@.len()),
                Action::ScrollPageUp => assert("new-window"@.len() != "scroll-page-up"@.len()),
                Action::ScrollPageDown => assert("new-window"@.len() != "scroll-page-down"@.len()),
                Action::ScrollToTop => assert("new-window"@.len() != "scroll-to-top"@.len()),
                Action::ScrollToBottom => assert("new-window"@.len() != "scroll-to-bottom"@.len()),
                Action::FontLarger => assert("new-window"@.len() != "font-larger"@.len()),
                Action::FontSmaller => assert("new-window"@.len() != "font-smaller"@.len()),
                Action::FontReset => assert("new-window"@[0] != "font-reset"@[0]),
                Action::Quit => assert("new-window"@.len() != "quit"@.len()),
            }
        },
        Action::Copy => {
            match b {
                Action::NewTab => assert("copy"@.len() != "new-tab"@.len()),
                Action::CloseTab => assert("copy"@.len() != "close-tab"@.len()),
                Action::NextTab => assert("copy"@.len() != "next-tab"@.len()),
                Action::PreviousTab => assert("copy"@.len() != "previous-tab"@.len()),
                Action::NewWindow => assert("copy"@.len() != "new-window"@.len()),
                Action::Copy => {},
                Action::Paste => assert("copy"@.len() != "paste"@.len()),
                Action::Find => assert("copy"@[0] != "find"@[0]),
                Action::Settings => assert("copy"@.len() != "settings"@.len()),
                Action::ToggleTabPosition => assert("copy"@.len() != "toggle-tab-position"@.len()),
                Action::ScrollPageUp => assert("copy"@.len() != "scroll-page-up"@.len()),
                Action::ScrollPageDown => assert("copy"@.len() != "scroll-page-down"@.len()),
                Action::ScrollToTop => assert("copy"@.len() != "scroll-to-top"@.len()),
                Action::ScrollToBottom => assert("copy"@.len() != "scroll-to-bottom"@.len()),
                Action::FontLarger => assert("copy"@.len() != "font-larger"@.len()),
                Action::FontSmaller => assert("copy"@.len() != "font-smaller"@.len()),
                Action::FontReset => assert("copy"@.len() != "font-reset"@.len()),
                Action::Quit => assert("copy"@[0] != "quit"@[0]),
            }
        },
        Action::Paste => {
            match b {
                Action::NewTab => assert("paste"@.len() != "new-tab"@.len()),
                Action::CloseTab => assert("paste"@.len() != "close-tab"@.len()),
                Action::NextTab => assert("paste"@.len() != "next-tab"@.len()),
                Action::PreviousTab => assert("paste"@.len() != "previous-tab"@.len()),
                Action::NewWindow => assert("paste"@.len() != "new-window"@.len()),
                Action::Copy => assert("paste"@.len() != "copy"@.len()),
                Action::Paste => {},
                Action::Find => assert("paste"@.len() != "find"@.len()),
                Action::Settings => assert("paste"@.len() != "settings"@.len()),
                Action::ToggleTabPosition => assert("paste"@.len() != "toggle-tab-position"@.len()),
                Action::ScrollPageUp => assert("paste"@.len() != "scroll-page-up"@.len()),
                Action::ScrollPageDown => assert("paste"@.len() != "scroll-page-down"@.len()),
                Action::ScrollToTop => assert("paste"@.len() != "scroll-to-top"@.len()),
                Action::ScrollToBottom => assert("paste"@.len() != "scroll-to-bottom"@.len()),
                Action::FontLarger => assert("paste"@.len() != "font-larger"@.len()),
                Action::FontSmaller => assert("paste"@.len() != "font-smaller"@.len()),
                Action::FontReset => assert("paste"@.len() != "font-reset"@.len()),
                Action::Quit => assert("paste"@.len() != "quit"@.len()),
            }
        },
        Action::Find => {
            match b {
                Action::NewTab => assert("find"@.len() != "new-tab"@.len()),
                Action::CloseTab => assert("find"@.len() != "close-tab"@.len()),
                Action::NextTab => assert("find"@.len() != "next-tab"@.len()),
                Action::PreviousTab => assert("find"@.len() != "previous-tab"@.len()),
                Action::NewWindow => assert("find"@.len() != "new-window"@.len()),
                Action::Copy => assert("find"@[0] != "copy"@[0]),
                Action::Paste => assert("find"@.len() != "paste"@.len()),
                Action::Find => {},
                Action::Settings => assert("find"@.len() != "settings"@.len()),
                Action::ToggleTabPosition => assert("find"@.len() != "toggle-tab-position"@.len()),
                Action::ScrollPageUp => assert("find"@.len() != "scroll-page-up"@.len()),
                Action::ScrollPageDown => assert("find"@.len() != "scroll-page-down"@.len()),
                Action::ScrollToTop => assert("find"@.len() != "scroll-to-top"@.len()),
                Action::ScrollToBottom => assert("find"@.len() != "scroll-to-bottom"@.len()),
                Action::FontLarger => assert("find"@.len() != "font-larger"@.len()),
                Action::FontSmaller => assert("find"@.len() != "font-smaller"@.len()),
                Action::FontReset => assert("find"@.len() != "font-reset"@.len()),
                Action::Quit => assert("find"@[0] != "quit"@[0]),
            }
        },
        Action::Settings => {
            match b {
                Action::NewTab => assert("settings"@.len() != "new-tab"@.len()),
                Action::CloseTab => assert("settings"@.len() != "close-tab"@.len()),
                Action::NextTab => assert("settings"@[0] != "next-tab"@[0]),
                Action::PreviousTab => assert("settings"@.len() != "previous-tab"@.len()),
                Action::NewWindow => assert("settings"@.len() != "new-window"@.len()),
                Action::Copy => assert("settings"@.len() != "copy"@.len()),
                Action::Paste => assert("settings"@.len() != "paste"@.len()),
                Action::Find => assert("settings"@.len() != "find"@.len()),
                Action::Settings => {},
                Action::ToggleTabPosition => assert("settings"@.len() != "toggle-tab-position"@.len()),
                Action::ScrollPageUp => assert("settings"@.len() != "scroll-page-up"@.len()),
                Action::ScrollPageDown => assert("settings"@.len() != "scroll-page-down"@.len()),
                Action::ScrollToTop => assert("settings"@.len() != "scroll-to-top"@.len()),
                Action::ScrollToBottom => assert("settings"@.len() != "scroll-to-bottom"@.len()),
                Action::FontLarger => assert("settings"@.len() != "font-larger"@.len()),
                Action::FontSmaller => assert("settings"@.len() != "font-smaller"@.len()),
                Action::FontReset => assert("settings"@.len() != "font-reset"@.len()),
                Action::Quit => assert("settings"@.len() != "quit"@.len()),
            }
        },
        Action::ToggleTabPosition => {
            match b {
                Action::NewTab => assert("toggle-tab-position"@.len() != "new-tab"@.len()),
                Action::CloseTab => assert("toggle-tab-position"@.len() != "close-tab"@.len()),
                Action::NextTab => assert("toggle-tab-position"@.len() != "next-tab"@.len()),
                Action::PreviousTab => assert("toggle-tab-position"@.len() != "previous-tab"@.len()),
                Action::NewWindow => assert("toggle-tab-position"@.len() != "new-window"@.len()),
                Action::Copy => assert("toggle-tab-position"@.len() != "copy"@.len()),
                Action::Paste => assert("toggle-tab-position"@.len() != "paste"@.len()),
                Action::Find => assert("toggle-tab-position"@.len() != "find"@.len()),
                Action::Settings => assert("toggle-tab-position"@.len() != "settings"@.len()),
                Action::ToggleTabPosition => {},
                Action::ScrollPageUp => assert("toggle-tab-position"@.len() != "scroll-page-up"@.len()),
                Action::ScrollPageDown => assert("toggle-tab-position"@.len() != "scroll-page-down"@.len()),
                Action::ScrollToTop => assert("toggle-tab-position"@.len() != "scroll-to-top"@.len()),
                Action::ScrollToBottom => assert("toggle-tab-position"@.len() != "scroll-to-bottom"@.len()),
                Action::FontLarger => assert("toggle-tab-position"@.len() != "font-larger"@.len()),
                Action::FontSmaller => assert("toggle-tab-position"@.len() != "font-smaller"@.len()),
                Action::FontReset => assert("toggle-tab-position"@.len() != "font-reset"@.len()),
                Action::Quit => assert("toggle-tab-position"@.len() != "quit"@.len()),
            }
        },
        Action::ScrollPageUp => {
            match b {
                Action::NewTab => assert("scroll-page-up"@.len() != "new-tab"@.len()),
                Action::CloseTab => assert("scroll-page-up"@.len() != "close-tab"@.len()),
                Action::NextTab => assert("scroll-page-up"@.len() != "next-tab"@.len()),
                Action::PreviousTab => assert("scroll-page-up"@.len() != "previous-tab"@.len()),
                Action::NewWindow => assert("scroll-page-up"@.len() != "new-window"@.len()),
                Action::Copy => assert("scroll-page-up"@.len() != "copy"@.len()),
                Action::Paste => assert("scroll-page-up"@.len() != "paste"@.len()),
                Action::Find => assert("scroll-page-up"@.len() != "find"@.len()),
                Action::Settings => assert("scroll-page-up"@.len() != "settings"@.len()),
                Action::ToggleTabPosition => assert("scroll-page-up"@.len() != "toggle-tab-position"@.len()),
                Action::ScrollPageUp => {},
                Action::ScrollPageDown => assert("scroll-page-up"@.len() != "scroll-page-down"@.len()),
                Action::ScrollToTop => assert("scroll-page-up"@.len() != "scroll-to-top"@.len()),
                Action::ScrollToBottom => assert("scroll-page-up"@.len() != "scroll-to-bottom"@.len()),
                Action::FontLarger => assert("scroll-page-up"@.len() != "font-larger"@.len()),
                Action::FontSmaller => assert("scroll-page-up"@.len() != "font-smaller"@.len()),
                Action::FontReset => assert("scroll-page-up"@.len() != "font-reset"@.len()),
                Action::Quit => assert("scroll-page-up"@.len() != "quit"@.len()),
            }
        },
        Action::ScrollPageDown => {
            match b {
                Action::NewTab => assert("scroll-page-down"@.len() != "new-tab"@.len()),
                Action::CloseTab => assert("scroll-page-down"@.len() != "close-tab"@.len()),
                Action::NextTab => assert("scroll-page-down"@.len() != "next-tab"@.len()),
                Action::PreviousTab => assert("scroll-page-down"@.len() != "previous-tab"@.len()),
                Action::NewWindow => assert("scroll-page-down"@.len() != "new-window"@.len()),
                Action::Copy => assert("scroll-page-down"@.len() != "copy"@.len()),
                Action::Paste => assert("scroll-page-down"@.len() != "paste"@.len()),
                Action::Find => assert("scroll-page-down"@.len() != "find"@.len()),
                Action::Settings => assert("scroll-page-down"@.len() != "settings"@.len()),
                Action::ToggleTabPosition => assert("scroll-page-down"@.len() != "toggle-tab-position"@.len()),
                Action::ScrollPageUp => assert("scroll-page-down"@.len() != "scroll-page-up"@.len()),
                Action::ScrollPageDown => {},
                Action::ScrollToTop => assert("scroll-page-down"@.len() != "scroll-to-top"@.len()),
                Action::ScrollToBottom => assert("scroll-page-down"@[7] != "scroll-to-bottom"@[7]),
                Action::FontLarger => assert("scroll-page-down"@.len() != "font-larger"@.len()),
                Action::FontSmaller => assert("scroll-page-down"@.len() != "font-smaller"@.len()),
                Action::FontReset => assert("scroll-page-down"@.len() != "font-reset"@.len()),
                Action::Quit => assert("scroll-page-down"@.len() != "quit"@.len()),
            }
        },
        Action::ScrollToTop => {
            match b {
                Action::NewTab => assert("scroll-to-top"@.len() != "new-tab"@.len()),
                Action::CloseTab => assert("scroll-to-top"@.len() != "close-tab"@.len()),
                Action::NextTab => assert("scroll-to-top"@.len() != "next-tab"@.len()),
                Action::PreviousTab => assert("scroll-to-top"@.len() != "previous-tab"@.len()),
                Action::NewWindow => assert("scroll-to-top"@.len() != "new-window"@.len()),
                Action::Copy => assert("scroll-to-top"@.len() != "copy"@.len()),
                Action::Paste => assert("scroll-to-top"@.len() != "paste"@.len()),
                Action::Find => assert("scroll-to-top"@.len() != "find"@.len()),
                Action::Settings => assert("scroll-to-top"@.len() != "settings"@.len()),
                Action::ToggleTabPosition => assert("scroll-to-top"@.len() != "toggle-tab-position"@.len()),
                Action::ScrollPageUp => assert("scroll-to-top"@.len() != "scroll-page-up"@.len()),
                Action::ScrollPageDown => assert("scroll-to-top"@.len() != "scroll-page-down"@.len()),
                Action::ScrollToTop => {},
                Action::ScrollToBottom => assert("scroll-to-top"@.len() != "scroll-to-bottom"@.len()),
                Action::FontLarger => assert("scroll-to-top"@.len() != "font-larger"@.len()),
                Action::FontSmaller => assert("scroll-to-top"@.len() != "font-smaller"@.len()),
                Action::FontReset => assert("scroll-to-top"@.len() != "font-reset"@.len()),
                Action::Quit => assert("scroll-to-top"@.len() != "quit"@.len()),
            }
        },
        Action::ScrollToBottom => {
            match b {
                Action::NewTab => assert("scroll-to-bottom"@.len() != "new-tab"@.len()),
                Action::CloseTab => assert("scroll-to-bottom"@.len() != "close-tab"@.len()),
                Action::NextTab => assert("scroll-to-bottom"@.len() != "next-tab"@.len()),
                Action::PreviousTab => assert("scroll-to-bottom"@.len() != "previous-tab"@.len()),
                Action::NewWindow => assert("scroll-to-bottom"@.len() != "new-window"@.len()),
                Action::Copy => assert("scroll-to-bottom"@.len() != "copy"@.len()),
                Action::Paste => assert("scroll-to-bottom"@.len() != "paste"@.len()),
                Action::Find => assert("scroll-to-bottom"@.len() != "find"@.len()),
                Action::Settings => assert("scroll-to-bottom"@.len() != "settings"@.len()),
                Action::ToggleTabPosition => assert("scroll-to-bottom"@.len() != "toggle-tab-position"@.len()),
                Action::ScrollPageUp => assert("scroll-to-bottom"@.len() != "scroll-page-up"@.len()),
                Action::ScrollPageDown => assert("scroll-to-bottom"@[7] != "scroll-page-down"@[7]),
                Action::ScrollToTop => assert("scroll-to-bottom"@.len() != "scroll-to-top"@.len()),
                Action::ScrollToBottom => {},
                Action::FontLarger => assert("scroll-to-bottom"@.len() != "font-larger"@.len()),
                Action::FontSmaller => assert("scroll-to-bottom"@.len() != "font-smaller"@.len()),
                Action::FontReset => assert("scroll-to-bottom"@.len() != "font-reset"@.len()),
                Action::Quit => assert("scroll-to-bottom"@.len() != "quit"@.len()),
            }
        },
        Action::FontLarger => {
            match b {
                Action::NewTab => assert("font-larger"@.len() != "new-tab"@.len()),
                Action::CloseTab => assert("font-larger"@.len() != "close-tab"@.len()),
                Action::NextTab => assert("font-larger"@.len() != "next-tab"@.len()),
                Action::PreviousTab => assert("font-larger"@.len() != "previous-tab"@.len()),
                Action::NewWindow => assert("font-larger"@.len() != "new-window"@.len()),
                Action::Copy => assert("font-larger"@.len() != "copy"@.len()),
                Action::Paste => assert("font-larger"@.len() != "paste"@.len()),
                Action::Find => assert("font-larger"@.len() != "find"@.len()),
                Action::Settings => assert("font-larger"@.len() != "settings"@.len()),
                Action::ToggleTabPosition => assert("font-larger"@.len() != "toggle-tab-position"@.len()),
                Action::ScrollPageUp => assert("font-larger"@.len() != "scroll-page-up"@.len()),
                Action::ScrollPageDown => assert("font-larger"@.len() != "scroll-page-down"@.len()),
                Action::ScrollToTop => assert("font-larger"@.len() != "scroll-to-top"@.len()),
                Action::ScrollToBottom => assert("font-larger"@.len() != "scroll-to-bottom"@.len()),
                Action::FontLarger => {},
                Action::FontSmaller => assert("font-larger"@.len() != "font-smaller"@.len()),
                Action::FontReset => assert("font-larger"@.len() != "font-reset"@.len()),
                Action::Quit => assert("font-larger"@.len() != "quit"@.len()),
            }
        },
        Action::FontSmaller => {
            match b {
                Action::NewTab => assert("font-smaller"@.len() != "new-tab"@.len()),
                Action::CloseTab => assert("font-smaller"@.len() != "close-tab"@.len()),
                Action::NextTab => assert("font-smaller"@.len() != "next-tab"@.len()),
                Action::PreviousTab => assert("font-smaller"@[0] != "previous-tab"@[0]),
                Action::NewWindow => assert("font-smaller"@.len() != "new-window"@.len()),
                Action::Copy => assert("font-smaller"@.len() != "copy"@.len()),
                Action::Paste => assert("font-smaller"@.len() != "paste"@.len()),
                Action::Find => assert("font-smaller"@.len() != "find"@.len()),
                Action::Settings => assert("font-smaller"@.len() != "settings"@.len()),
                Action::ToggleTabPosition => assert("font-smaller"@.len() != "toggle-tab-position"@.len()),
                Action::ScrollPageUp => assert("font-smaller"@.len() != "scroll-page-up"@.len()),
                Action::ScrollPageDown => assert("font-smaller"@.len() != "scroll-page-down"@.len()),
                Action::ScrollToTop => assert("font-smaller"@.len() != "scroll-to-top"@.len()),
                Action::ScrollToBottom => assert("font-smaller"@.len() != "scroll-to-bottom"@.len()),
                Action::FontLarger => assert("font-smaller"@.len() != "font-larger"@.len()),
                Action::FontSmaller => {},
                Action::FontReset => assert("font-smaller"@.len() != "font-reset"@.len()),
                Action::Quit => assert("font-smaller"@.len() != "quit"@.len()),
            }
        },
        Action::FontReset => {
            match b {
                Action::NewTab => assert("font-reset"@.len() != "new-tab"@.len()),
                Action::CloseTab => assert("font-reset"@.len() != "close-tab"@.len()),
                Action::NextTab => assert("font-reset"@.len() != "next-tab"@.len()),
                Action::PreviousTab => assert("font-reset"@.len() != "previous-tab"@.len()),
                Action::NewWindow => assert("font-reset"@[0] != "new-window"@[0]),
                Action::Copy => assert("font-reset"@.len() != "copy"@.len()),
                Action::Paste => assert("font-reset"@.len() != "paste"@.len()),
                Action::Find => assert("font-reset"@.len() != "find"@.len()),
                Action::Settings => assert("font-reset"@.len() != "settings"@.len()),
                Action::ToggleTabPosition => assert("font-reset"@.len() != "toggle-tab-position"@.len()),
                Action::ScrollPageUp => assert("font-reset"@.len() != "scroll-page-up"@.len()),
                Action::ScrollPageDown => assert("font-reset"@.len() != "scroll-page-down"@.len()),
                Action::ScrollToTop => assert("font-reset"@.len() != "scroll-to-top"@.len()),
                Action::ScrollToBottom => assert("font-reset"@.len() != "scroll-to-bottom"@.len()),
                Action::FontLarger => assert("font-reset"@.len() != "font-larger"@.len()),
                Action::FontSmaller => assert("font-reset"@.len() != "font-smaller"@.len()),
                Action::FontReset => {},
                Action::Quit => assert("font-reset"@.len() != "quit"@.len()),
            }
        },
        Action::Quit => {
            match b {
                Action::NewTab => assert("quit"@.len() != "new-tab"@.len()),
                Action::CloseTab => assert("quit"@.len() != "close-tab"@.len()),
                Action::NextTab => assert("quit"@.len() != "next-tab"@.len()),
                Action::PreviousTab => assert("quit"@.len() != "previous-tab"@.len()),
                Action::NewWindow => assert("quit"@.len() != "new-window"@.len()),
                Action::Copy => assert("quit"@[0] != "copy"@[0]),
                Action::Paste => assert("quit"@.len() != "paste"@.len()),
                Action::Find => assert("quit"@[0] != "find"@[0]),
                Action::Settings => assert("quit"@.len() != "settings"@.len()),
                Action::ToggleTabPosition => assert("quit"@.len() != "toggle-tab-position"@.len()),
                Action::ScrollPageUp => assert("quit"@.len() != "scroll-page-up"@.len()),
                Action::ScrollPageDown => assert("quit"@.len() != "scroll-page-down"@.len()),
                Action::ScrollToTop => assert("quit"@.len() != "scroll-to-top"@.len()),
                Action::ScrollToBottom => assert("quit"@.len() != "scroll-to-bottom"@.len()),
                Action::FontLarger => assert("quit"@.len() != "font-larger"@.len()),
                Action::FontSmaller => assert("quit"@.len() != "font-smaller"@.len()),
                Action::FontReset => assert("quit"@.len() != "font-reset"@.len()),
                Action::Quit => {},
            }
        },
    }
}

/// Every action's name reads back as that action.
pub proof fn lemma_action_name_round_trips(a: Action)
    ensures
        action_named(a.spec_name()) == Some(a),
{
    let other = choose|b: Action| b.spec_name() == a.spec_name();
    lemma_names_differ(other, a);
}

} // verus!
