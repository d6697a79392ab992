//! What the app asks the window to do: the parts of an action only the host can carry out.
use vstd::prelude::*;

verus! {

/// Something the app needs the window to do. The app has already decided what; these are
/// the parts that need a platform, a second window, or the event loop itself.
#[derive(Clone, PartialEq, Eq, Debug)]
pub enum Command {
    /// Put this text on the system clipboard.
    Copy(String),
    /// Read the clipboard and hand it back to be pasted.
    Paste,
    /// Open a second window at the same size.
    NewWindow,
    /// The last tab closed. The host decides whether that closes the window.
    Quit,
}

} // verus!
