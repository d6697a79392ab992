//! What can go wrong starting or driving a child process, and the one check made before
//! anything is created.
use vstd::prelude::*;

verus! {

/// Something that went wrong starting or driving a child process.
#[derive(Clone, PartialEq, Eq, Debug)]
pub enum PtyError {
    /// The pseudoconsole could not be created.
    ConPty(String),
    /// The child process could not be started.
    Spawn {
        /// The program that was asked for.
        program: String,
        /// What Windows said.
        message: String,
    },
    /// A handle operation failed.
    Io {
        /// Which operation.
        what: &'static str,
        /// What Windows said.
        message: String,
    },
    /// A terminal size of zero, which the pseudoconsole rejects.
    EmptySize {
        /// The width asked for.
        cols: u16,
        /// The height asked for.
        rows: u16,
    },
    /// The program to run does not exist.
    NotFound(String),
}

/// A terminal needs at least one column and one row; a size with none is refused before a
/// pseudoconsole is created or resized.
pub fn check_size(cols: u16, rows: u16) -> (r: Result<(), PtyError>)
    ensures
        r is Ok <==> (cols > 0 && rows > 0),
        r is Err ==> r == Err::<(), PtyError>(PtyError::EmptySize { cols, rows }),
{
    if cols == 0 || rows == 0 {
        Err(PtyError::EmptySize { cols, rows })
    } else {
        Ok(())
    }
}

} // verus!
