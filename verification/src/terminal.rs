//! The size of the character grid the editor draws into.

use vstd::prelude::*;

verus! {

/// A window of `rows` text lines by `columns` characters.
#[derive(Clone, Copy, Debug, PartialEq, Eq, Structural)]
pub struct WindowSize {
    pub rows: u16,
    pub columns: u16,
}

} // verus!
