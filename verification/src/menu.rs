//! The menu a right click on a tab opens.
use vstd::prelude::*;

verus! {

/// What a menu item does.
#[derive(Clone, Copy, PartialEq, Eq, Debug, Structural)]
pub enum Action {
    /// Open a tab with the default profile.
    NewTab,
    /// Open a second window.
    NewWindow,
    /// Close the tab the menu was opened on.
    Close,
    /// Close every tab but the one the menu was opened on.
    CloseOthers,
}

/// One row of the menu.
#[derive(Clone, Copy, PartialEq, Eq, Debug)]
pub struct Item {
    /// What the row says.
    pub label: &'static str,
    /// What it does.
    pub action: Action,
}

/// The words of an action's row.
pub open spec fn label_of(action: Action) -> Seq<char> {
    match action {
        Action::NewTab => "New tab"@,
        Action::NewWindow => "New window"@,
        Action::Close => "Close tab"@,
        Action::CloseOthers => "Close other tabs"@,
    }
}

/// The actions the menu offers with `tabs` tabs open: the three that always make sense,
/// and closing the others only when there are others.
pub open spec fn offered(tabs: usize) -> Seq<Action> {
    if tabs > 1 {
        seq![Action::NewTab, Action::NewWindow, Action::Close, Action::CloseOthers]
    } else {
        seq![Action::NewTab, Action::NewWindow, Action::Close]
    }
}

/// One row.
fn item(action: Action) -> (r: Item)
    ensures
        r.action == action,
        r.label@ == label_of(action),
{
    let label = match action {
        Action::NewTab => "New tab",
        Action::NewWindow => "New window",
        Action::Close => "Close tab",
        Action::CloseOthers => "Close other tabs",
    };
    Item { label, action }
}

/// The rows of the menu on a tab, with `tabs` tabs open.
pub fn items(tabs: usize) -> (r: Vec<Item>)
    ensures
        r@.len() == offered(tabs).len(),
        forall|i: int|
            0 <= i < r@.len() ==> (#[trigger] r@[i]).action == offered(tabs)[i] && r@[i].label@
                == label_of(offered(tabs)[i]),
{
    let mut items: Vec<Item> = Vec::new();
    items.push(item(Action::NewTab));
    items.push(item(Action::NewWindow));
    items.push(item(Action::Close));
    if tabs > 1 {
        items.push(item(Action::CloseOthers));
    }
    items
}

/// Every action has its own words.
pub proof fn lemma_labels_differ(a: Action, b: Action)
    ensures
        label_of(a) == label_of(b) ==> a == b,
{
    reveal_strlit("New tab");
    reveal_strlit("New window");
    reveal_strlit("Close tab");
    reveal_strlit("Close other tabs");
    if a != b && label_of(a) == label_of(b) {
        match (a, b) {
            (Action::NewTab, Action::NewWindow) | (Action::NewWindow, Action::NewTab) => {
                assert(label_of(a).len() != label_of(b).len());
            },
            _ => {
                assert(label_of(a).len() != label_of(b).len() || label_of(a)[0] != label_of(b)[0]);
            },
        }
    }
}

} // verus!
