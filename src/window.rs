use crate::entity::WindowId;
use vstd::prelude::*;

verus! {

/// The part of a window that the core reads: its id and whether it needs redrawing.
pub struct Window {
    pub id: WindowId,
    pub dirty: bool,
}

/// What a window slot holds.
pub enum WindowSlot {
    /// The window is open and available.
    Open(Window),
    /// The window is being built, or lent to an update in progress.
    InUse,
    /// The platform closed the window.
    Closed,
}

} // verus!
