//! The mutations that the canvas accepts, and their timestamped records.
use crate::canvas::{dims_fit, resized, Canvas, CanvasError, CanvasModel};
use crate::color::Color;
use vstd::prelude::*;

verus! {

/// Which part of a canvas stays in place when it is resized.
#[derive(Clone, Copy, Debug, PartialEq, Eq, Structural)]
pub enum ResizeAnchor {
    TopLeft,
    TopRight,
    BottomLeft,
    BottomRight,
    Center,
}

/// One mutation of the canvas.
#[derive(Clone, Copy, Debug, PartialEq, Eq, Structural)]
pub enum ChangeEvent {
    /// Sets one pixel; the coordinates are checked when the event is applied.
    Paint { x: usize, y: usize, color: Color },
    /// Gives the canvas new dimensions, keeping its content at the anchor.
    Resize { anchor: ResizeAnchor, width: usize, height: usize },
}

/// An applied event with the wall-clock time, in milliseconds since the
/// epoch, at which it was applied.
#[derive(Clone, Copy, Debug, PartialEq, Eq, Structural)]
pub struct Change {
    pub event: ChangeEvent,
    pub timestamp: u64,
}

/// Whether the event can be applied to a canvas: a paint inside its bounds, or a
/// resize to dimensions that a canvas can have.
pub open spec fn event_applies(m: CanvasModel, e: ChangeEvent) -> bool {
    match e {
        ChangeEvent::Paint { x, y, .. } => m.contains(x as int, y as int),
        ChangeEvent::Resize { width, height, .. } => dims_fit(width as int, height as int),
    }
}

/// The canvas after the event; an event that does not apply leaves it as it is.
pub open spec fn apply_event_model(m: CanvasModel, e: ChangeEvent) -> CanvasModel {
    if !event_applies(m, e) {
        m
    } else {
        match e {
            ChangeEvent::Paint { x, y, color } => m.painted(x as int, y as int, color),
            ChangeEvent::Resize { anchor, width, height } => resized(
                m,
                width as nat,
                height as nat,
                anchor,
            ),
        }
    }
}

/// The error that refuses an event that does not apply.
pub open spec fn event_error(m: CanvasModel, e: ChangeEvent) -> CanvasError {
    match e {
        ChangeEvent::Paint { .. } => CanvasError::OutOfBounds {
            width: m.width as usize,
            height: m.height as usize,
        },
        ChangeEvent::Resize { width, height, .. } => CanvasError::InvalidDimensions { width, height },
    }
}

/// The canvas after the changes, applied in order.
pub open spec fn replay(m: CanvasModel, changes: Seq<Change>) -> CanvasModel
    decreases changes.len(),
{
    if changes.len() == 0 {
        m
    } else {
        apply_event_model(replay(m, changes.drop_last()), changes.last().event)
    }
}

/// Replaying one more change applies it to what the others gave.
pub proof fn lemma_replay_push(m: CanvasModel, changes: Seq<Change>, c: Change)
    ensures
        replay(m, changes.push(c)) == apply_event_model(replay(m, changes), c.event),
{
    assert(changes.push(c).drop_last() =~= changes);
}

/// Applying an event to a well-formed canvas gives a well-formed canvas.
pub proof fn lemma_apply_keeps_wf(m: CanvasModel, e: ChangeEvent)
    requires
        m.wf(),
    ensures
        apply_event_model(m, e).wf(),
{
    if event_applies(m, e) {
        match e {
            ChangeEvent::Resize { anchor, width, height } => {
                let r = resized(m, width as nat, height as nat, anchor);
                assert(r.width == width && r.height == height);
                assert(r.pixels.len() == (width as nat) * (height as nat));
            },
            ChangeEvent::Paint { x, y, color } => {
                let idx = y as int * m.width + x as int;
                assert(0 <= idx < m.width * m.height) by (nonlinear_arith)
                    requires
                        0 <= x < m.width,
                        0 <= y < m.height,
                        idx == y as int * m.width + x as int,
                ;
                let p = m.painted(x as int, y as int, color);
                assert(p.pixels.len() == m.pixels.len());
            },
        }
    }
}

impl ChangeEvent {
    /// Applies the event to the canvas: a paint sets one pixel, a resize gives
    /// new dimensions. On error the canvas is unchanged.
    pub fn apply(&self, canvas: &mut Canvas) -> (r: Result<(), CanvasError>)
        ensures
            r is Ok <==> event_applies(old(canvas)@, *self),
            final(canvas)@ == apply_event_model(old(canvas)@, *self),
            final(canvas)@.wf(),
            r is Err ==> r == Err::<(), CanvasError>(event_error(old(canvas)@, *self)),
    {
        match self {
            ChangeEvent::Paint { x, y, color } => canvas.set_pixel(*x, *y, *color),
            ChangeEvent::Resize { anchor, width, height } => canvas.resize(*width, *height, *anchor),
        }
    }
}

} // verus!
