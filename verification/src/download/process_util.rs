//! Flags for the processes the downloads start.

use vstd::prelude::*;

verus! {

/// The creation flag that keeps a started process from opening a console
/// window on Windows (`CREATE_NO_WINDOW`); no flag elsewhere.
pub fn hide_console(windows: bool) -> (r: u32)
    ensures
        r == (if windows { 0x0800_0000u32 } else { 0u32 }),
{
    if windows {
        0x0800_0000
    } else {
        0
    }
}

} // verus!
