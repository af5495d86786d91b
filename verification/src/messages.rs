//! The protocol's message types: inbound requests from a session's peer
//! and outbound events fanned out to every session.

use vstd::prelude::*;

verus! {

/// Inbound request decoded from one wire frame.
pub enum ClientMessage {
    /// Paint one cell.
    Paint { index: usize, color: String },
    /// Broadcast a short text as a transient falling item.
    SendMessage { text: String },
    /// Broadcast an image data-URI as a transient falling item.
    SendImage { data: String },
}

/// Kind of a transient falling item.
#[derive(Clone, Copy, PartialEq, Eq, Structural, Debug)]
pub enum ItemKind {
    Text,
    Image,
}

/// Color of one cell as carried by the initial-state event.
#[derive(Clone)]
pub struct PixelData {
    pub color: String,
}

/// Outbound event. All variants but `InitialState` are broadcast to
/// every session; `InitialState` is sent once, to a new session only.
/// Cloning is what hands one published event to many subscribers.
#[derive(Clone)]
pub enum ServerMessage {
    /// Full snapshot for a new session: every cell's color, the
    /// presence count and the validity mask.
    InitialState { grid: Vec<PixelData>, online_count: u64, tree_mask: Vec<bool> },
    /// One cell changed.
    UpdatePixel { index: usize, color: String },
    /// The presence count changed.
    UpdateCount { count: u64 },
    /// A transient item. `x_percent` is the numerator over 100 of the
    /// horizontal position fraction, so it lies in `[0, 100)`.
    FallingItem { item_type: ItemKind, content: String, x_percent: u64 },
}

} // verus!
