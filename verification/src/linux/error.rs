//! How the X11 backend fails.

use vstd::prelude::*;

verus! {

/// Why the X11 backend failed.
#[derive(Debug, Copy, Clone, PartialEq, Eq, Structural)]
pub enum X11Error {
    /// No connection to the X server could be opened.
    ConnectionFailed,
    /// The server lacks the RANDR extension.
    ExtensionMissing,
    /// Enumeration found no display.
    NoDisplaysFound,
    /// No display has the index asked for.
    DisplayNotFound,
    /// A request was refused, or the connection broke under it.
    ProtocolError,
}

} // verus!
