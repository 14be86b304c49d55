//! The single owner of the canvas and its history, through which every
//! mutation flows so that the two never diverge.
use crate::canvas::{dims_fit, blank, Canvas, CanvasError, CanvasModel};
use crate::change::{apply_event_model, event_applies, event_error, Change, ChangeEvent};
use crate::history::{lemma_recorded_reconstructs, lemma_recorded_wf, History, HistoryModel};
use vstd::prelude::*;

verus! {

/// The content of a world: its live canvas and its history.
pub struct WorldModel {
    pub canvas: CanvasModel,
    pub history: HistoryModel,
}

impl WorldModel {
    /// The history is well formed and rebuilds exactly the live canvas.
    pub open spec fn wf(self) -> bool {
        &&& self.canvas.wf()
        &&& self.history.wf()
        &&& self.history.reconstructed() == self.canvas
    }

    /// The world after the event is applied at `timestamp`: when it applies, the
    /// canvas changes and the change is logged with the canvas it produced;
    /// otherwise nothing changes.
    pub open spec fn applied(self, event: ChangeEvent, timestamp: u64) -> WorldModel {
        if event_applies(self.canvas, event) {
            let canvas = apply_event_model(self.canvas, event);
            WorldModel {
                canvas,
                history: self.history.recorded(Change { event, timestamp }, canvas),
            }
        } else {
            self
        }
    }

    /// The world after the events, each with its timestamp, applied in order.
    pub open spec fn run(self, events: Seq<(ChangeEvent, u64)>) -> WorldModel
        decreases events.len(),
    {
        if events.len() == 0 {
            self
        } else {
            self.run(events.drop_last()).applied(events.last().0, events.last().1)
        }
    }
}

/// Applying an event keeps the history rebuilding exactly the live canvas.
pub proof fn lemma_applied_wf(w: WorldModel, event: ChangeEvent, timestamp: u64)
    requires
        w.wf(),
    ensures
        w.applied(event, timestamp).wf(),
{
    crate::change::lemma_apply_keeps_wf(w.canvas, event);
    if event_applies(w.canvas, event) {
        let canvas = apply_event_model(w.canvas, event);
        lemma_recorded_wf(w.history, Change { event, timestamp }, canvas);
        lemma_recorded_reconstructs(w.history, Change { event, timestamp }, canvas);
    }
}

/// Whatever events are applied to a well-formed world, in whatever order and
/// whether or not each one applies, the canvas rebuilt from its history by
/// replay is the live canvas.
pub proof fn lemma_reconstruction_matches_live(w: WorldModel, events: Seq<(ChangeEvent, u64)>)
    requires
        w.wf(),
    ensures
        w.run(events).wf(),
        w.run(events).history.reconstructed() == w.run(events).canvas,
    decreases events.len(),
{
    if events.len() > 0 {
        lemma_reconstruction_matches_live(w, events.drop_last());
        lemma_applied_wf(w.run(events.drop_last()), events.last().0, events.last().1);
    }
}

/// Relies on `SystemTime::now`: the wall-clock time in milliseconds since the
/// epoch, or zero for a clock set before it. Nothing is promised of the value.
#[verifier::external_body]
fn current_time_millis() -> (r: u64) {
    std::time::SystemTime::now().duration_since(std::time::UNIX_EPOCH).map(|d| d.as_millis() as u64).unwrap_or(0)
}

/// Why a world could not be made.
#[derive(Clone, Copy, Debug, PartialEq, Eq, Structural)]
pub enum WorldError {
    /// The canvas dimensions were refused.
    Canvas(CanvasError),
    /// A snapshot interval of zero changes.
    ZeroSnapshotInterval,
}

/// The error that refuses a world of these dimensions and interval: the
/// dimensions are checked first.
pub open spec fn world_error(width: usize, height: usize, snapshot_interval: usize) -> WorldError {
    if !dims_fit(width as int, height as int) {
        WorldError::Canvas(CanvasError::InvalidDimensions { width, height })
    } else {
        WorldError::ZeroSnapshotInterval
    }
}

/// A canvas and the history of every change applied to it.
#[derive(Debug)]
pub struct World {
    canvas: Canvas,
    history: History,
}

impl View for World {
    type V = WorldModel;

    closed spec fn view(&self) -> WorldModel {
        WorldModel { canvas: self.canvas@, history: self.history@ }
    }
}

impl World {
    pub open spec fn wf(&self) -> bool {
        self@.wf()
    }

    /// A world with a white canvas of the given dimensions and an empty history.
    /// Impossible dimensions are refused first, then a zero snapshot interval.
    pub fn new(width: usize, height: usize, snapshot_interval: usize) -> (r: Result<World, WorldError>)
        ensures
            match r {
                Ok(w) => {
                    &&& dims_fit(width as int, height as int)
                    &&& snapshot_interval > 0
                    &&& w.wf()
                    &&& w@.canvas == blank(width as nat, height as nat)
                    &&& w@.history == HistoryModel::initial(
                        snapshot_interval as nat,
                        blank(width as nat, height as nat),
                    )
                },
                Err(e) => e == world_error(width, height, snapshot_interval),
            },
            r is Err <==> !dims_fit(width as int, height as int) || snapshot_interval == 0,
    {
        let canvas = match Canvas::new(width, height) {
            Ok(c) => c,
            Err(e) => {
                return Err(WorldError::Canvas(e));
            },
        };
        let history = match History::new(snapshot_interval, &canvas) {
            Ok(h) => h,
            Err(_) => {
                return Err(WorldError::ZeroSnapshotInterval);
            },
        };
        let w = World { canvas, history };
        assert(w@.history.changes.subrange(0, 0) =~= Seq::<Change>::empty());
        Ok(w)
    }

    /// A world over a history loaded from storage, or over a new history of a
    /// white canvas when none was loaded. The canvas is rebuilt from the
    /// history. The dimensions and the interval are checked in either case.
    pub fn with_loaded_history(
        loaded: Option<History>,
        width: usize,
        height: usize,
        snapshot_interval: usize,
    ) -> (r: Result<World, WorldError>)
        requires
            loaded matches Some(h) ==> h.wf(),
        ensures
            match r {
                Ok(w) => {
                    &&& dims_fit(width as int, height as int)
                    &&& snapshot_interval > 0
                    &&& w.wf()
                    &&& w@.history == match loaded {
                        Some(h) => h@,
                        None => HistoryModel::initial(
                            snapshot_interval as nat,
                            blank(width as nat, height as nat),
                        ),
                    }
                },
                Err(e) => e == world_error(width, height, snapshot_interval),
            },
            r is Err <==> !dims_fit(width as int, height as int) || snapshot_interval == 0,
    {
        let initial = match Canvas::new(width, height) {
            Ok(c) => c,
            Err(e) => {
                return Err(WorldError::Canvas(e));
            },
        };
        let fresh = match History::new(snapshot_interval, &initial) {
            Ok(h) => h,
            Err(_) => {
                return Err(WorldError::ZeroSnapshotInterval);
            },
        };
        let history = match loaded {
            Some(h) => h,
            None => fresh,
        };
        let canvas = history.reconstruct_canvas();
        Ok(World { canvas, history })
    }

    /// Applies the event at the given time: the canvas is changed first, and
    /// only if that succeeds is the change logged. On error nothing changes.
    pub fn apply_event_at(&mut self, event: ChangeEvent, timestamp: u64) -> (r: Result<(), CanvasError>)
        requires
            old(self).wf(),
        ensures
            final(self).wf(),
            final(self)@ == old(self)@.applied(event, timestamp),
            r is Ok <==> event_applies(old(self)@.canvas, event),
            r is Err ==> r == Err::<(), CanvasError>(event_error(old(self)@.canvas, event)),
    {
        proof {
            lemma_applied_wf(self@, event, timestamp);
        }
        event.apply(&mut self.canvas)?;
        let change = Change { event, timestamp };
        self.history.record_change(change, &self.canvas);
        Ok(())
    }

    /// Applies the event, stamped with the current wall-clock time.
    pub fn apply_event(&mut self, event: ChangeEvent) -> (r: Result<(), CanvasError>)
        requires
            old(self).wf(),
        ensures
            final(self).wf(),
            r is Ok <==> event_applies(old(self)@.canvas, event),
            r is Err ==> r == Err::<(), CanvasError>(event_error(old(self)@.canvas, event)),
            final(self)@ == old(self)@.applied(event, final(self)@.history.changes.last().timestamp),
    {
        let timestamp = self.get_current_timestamp();
        let r = self.apply_event_at(event, timestamp);
        proof {
            if r is Ok {
                assert(self@.history.changes.last().timestamp == timestamp);
            }
        }
        r
    }

    /// The current wall-clock time in milliseconds since the epoch.
    fn get_current_timestamp(&self) -> u64 {
        current_time_millis()
    }

    /// The live canvas.
    pub fn canvas(&self) -> (r: &Canvas)
        ensures
            r@ == self@.canvas,
    {
        &self.canvas
    }

    /// The history of the live canvas.
    pub fn history(&self) -> (r: &History)
        ensures
            r@ == self@.history,
    {
        &self.history
    }

    /// The canvas's width and height.
    pub fn dimensions(&self) -> (r: (usize, usize))
        ensures
            r.0 == self@.canvas.width,
            r.1 == self@.canvas.height,
    {
        (self.canvas.width(), self.canvas.height())
    }

    /// The number of changes applied so far.
    pub fn change_count(&self) -> (r: usize)
        ensures
            r == self@.history.changes.len(),
    {
        self.history.current_change_count()
    }
}

} // verus!
