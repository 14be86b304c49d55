//! The messages exchanged with clients. Their JSON form is produced outside
//! this library; here they are plain values.
use crate::change::ResizeAnchor;
use vstd::prelude::*;

verus! {

/// A message from a client.
#[derive(Clone, Debug, PartialEq, Eq)]
pub enum ClientMessage {
    /// Paint one pixel; the colour is text in the form `#RRGGBB`.
    Paint { x: usize, y: usize, color: String },
    /// Ask for the number of connected clients.
    Ping,
    /// Resize the canvas.
    Resize { width: usize, height: usize, anchor: ResizeAnchor },
}

/// A message to clients.
#[derive(Clone, Debug, PartialEq, Eq)]
pub enum ServerMessage {
    /// The whole board, row by row, each pixel as `#RRGGBB`; `cooldown` is
    /// reserved and always zero.
    Init { width: usize, height: usize, board: Vec<Vec<String>>, cooldown: u64 },
    /// One pixel was painted.
    Update { x: usize, y: usize, color: String },
    /// The number of connected clients.
    Pong { clients: usize },
}

} // verus!
