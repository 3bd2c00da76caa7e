//! How the GDI backend fails.

use vstd::prelude::*;

verus! {

/// Why the GDI backend failed.
#[derive(Debug, Copy, Clone, PartialEq, Eq, Structural)]
pub enum WindowsError {
    CouldntEnumDisplayMonitors,
    CouldntGetWindowDC,
    CouldntCreateCompatibleDC,
    CouldntGetDeviceCaps,
    CouldntFindAnyDisplays,
    CouldntFindDisplay,
    CreateDIBSectionFailed,
    SelectObjectFailed,
    BitBltFailed,
    DeleteObjectFailed,
}

} // verus!
