//! What the views of the workstation remember between frames.
//!
//! Drawing is the user interface's own; what a view keeps from one frame to
//! the next is held here.
use vstd::prelude::*;

verus! {

/// The mixer console view.
#[derive(Debug, Clone, Copy, PartialEq, Eq, Structural)]
pub struct MixerView {
    /// Whether the mixer is shown.
    pub visible: bool,
}

impl MixerView {
    /// A mixer view that is shown.
    pub fn new() -> (r: Self)
        ensures
            r.visible,
    {
        MixerView { visible: true }
    }
}

impl Default for MixerView {
    fn default() -> (r: Self)
        ensures
            r.visible,
    {
        MixerView { visible: true }
    }
}

/// The transport bar view. It remembers nothing.
#[derive(Debug, Clone, Copy, PartialEq, Eq, Structural)]
pub struct TransportView;

impl TransportView {
    pub fn new() -> (r: Self)
        ensures
            r == TransportView,
    {
        TransportView
    }
}

impl Default for TransportView {
    fn default() -> (r: Self)
        ensures
            r == TransportView,
    {
        TransportView
    }
}

} // verus!
