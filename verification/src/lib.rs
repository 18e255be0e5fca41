//! An in-terminal fuzzy-filtering selection widget, verified.
//!
//! The library holds everything the widget decides and computes: the fuzzy
//! match pass and its stable ordering (`fuzzy`), the paging arithmetic
//! (`paging`), the key-by-key controller state machine (`select`), the text a
//! theme produces for each screen element (`theme`), the frame-height
//! accounting that says how much to erase between frames (`render`), and the
//! chapter text post-processing (`utils`). Terminal and network I/O stay with
//! the embedding application, which draws the lines the library produces and
//! feeds each key event back into the controller.

pub mod fuzzy;
pub mod paging;
pub mod providers;
pub mod render;
pub mod select;
pub mod theme;
pub mod utils;

use vstd::prelude::*;

verus! {

/// Adds two counts; the caller guarantees the sum fits in `usize`.
pub fn add(left: usize, right: usize) -> (r: usize)
    requires
        left + right <= usize::MAX,
    ensures
        r == left + right,
{
    left + right
}

} // verus!
