//! The append-only log of changes, with a full copy of the canvas taken every
//! `snapshot_interval` changes.
use crate::canvas::{Canvas, CanvasModel};
use crate::change::{replay, lemma_replay_push, Change};
use vstd::prelude::*;

verus! {

/// A copy of the canvas as it was after `change_count` changes.
#[derive(Debug)]
pub struct Snapshot {
    pub canvas: Canvas,
    pub change_count: usize,
}

pub struct SnapshotModel {
    pub canvas: CanvasModel,
    pub change_count: nat,
}

impl View for Snapshot {
    type V = SnapshotModel;

    open spec fn view(&self) -> SnapshotModel {
        SnapshotModel { canvas: self.canvas@, change_count: self.change_count as nat }
    }
}

/// The content of a history: its snapshots, oldest first, its changes in the
/// order they were applied, and the interval between snapshots.
pub struct HistoryModel {
    pub snapshots: Seq<SnapshotModel>,
    pub changes: Seq<Change>,
    pub snapshot_interval: nat,
}

impl HistoryModel {
    /// A positive interval, and one snapshot at every multiple of it up to the
    /// number of changes, the first at zero.
    pub open spec fn wf(self) -> bool {
        &&& self.snapshot_interval > 0
        &&& self.snapshots.len() == self.changes.len() / self.snapshot_interval + 1
        &&& forall|i: int|
            0 <= i < self.snapshots.len() ==> #[trigger] self.snapshots[i].change_count == i
                * self.snapshot_interval
    }

    /// A history of no changes, over the initial canvas.
    pub open spec fn initial(snapshot_interval: nat, canvas: CanvasModel) -> HistoryModel {
        HistoryModel {
            snapshots: seq![SnapshotModel { canvas, change_count: 0 }],
            changes: Seq::empty(),
            snapshot_interval,
        }
    }

    /// The history after `change` is logged with `canvas_after` as the canvas
    /// it produced: a snapshot of that canvas is added whenever the number of
    /// changes reaches a multiple of the interval.
    pub open spec fn recorded(self, change: Change, canvas_after: CanvasModel) -> HistoryModel {
        let changes = self.changes.push(change);
        HistoryModel {
            snapshots: if changes.len() % self.snapshot_interval == 0 {
                self.snapshots.push(SnapshotModel { canvas: canvas_after, change_count: changes.len() })
            } else {
                self.snapshots
            },
            changes,
            snapshot_interval: self.snapshot_interval,
        }
    }

    /// Whether snapshot `j` has the greatest change count not above `index`.
    pub open spec fn is_latest_at(self, j: int, index: int) -> bool {
        &&& 0 <= j < self.snapshots.len()
        &&& self.snapshots[j].change_count <= index
        &&& forall|i: int|
            0 <= i < self.snapshots.len() && #[trigger] self.snapshots[i].change_count <= index
                ==> self.snapshots[i].change_count <= self.snapshots[j].change_count
    }

    /// The canvas rebuilt from the newest snapshot and the changes after it.
    pub open spec fn reconstructed(self) -> CanvasModel {
        let s = self.snapshots.last();
        replay(s.canvas, self.changes.subrange(s.change_count as int, self.changes.len() as int))
    }
}

proof fn lemma_div_step(n: int, k: int)
    requires
        0 <= n,
        0 < k,
    ensures
        (n + 1) % k == 0 ==> (n + 1) / k == n / k + 1 && (n / k + 1) * k == n + 1,
        (n + 1) % k != 0 ==> (n + 1) / k == n / k,
        (n / k) * k <= n,
{
    let q = (n + 1) / k;
    let r = (n + 1) % k;
    vstd::arithmetic::div_mod::lemma_fundamental_div_mod(n + 1, k);
    if r == 0 {
        assert(n == (q - 1) * k + (k - 1)) by (nonlinear_arith)
            requires
                n + 1 == k * q + r,
                r == 0,
        ;
        vstd::arithmetic::div_mod::lemma_fundamental_div_mod_converse(n, k, q - 1, k - 1);
    } else {
        assert(n == q * k + (r - 1)) by (nonlinear_arith)
            requires
                n + 1 == k * q + r,
        ;
        vstd::arithmetic::div_mod::lemma_fundamental_div_mod_converse(n, k, q, r - 1);
    }
    vstd::arithmetic::div_mod::lemma_fundamental_div_mod(n, k);
    assert((n / k) * k <= n) by (nonlinear_arith)
        requires
            n == k * (n / k) + n % k,
            0 <= n % k,
    ;
}

/// The newest snapshot was taken at or before the newest change.
pub proof fn lemma_latest_within_log(h: HistoryModel)
    requires
        h.wf(),
    ensures
        h.snapshots.last().change_count <= h.changes.len(),
{
    lemma_div_step(h.changes.len() as int, h.snapshot_interval as int);
    assert(h.snapshots.last().change_count == (h.snapshots.len() - 1) * h.snapshot_interval);
}

/// Logging a change keeps the snapshot cadence.
pub proof fn lemma_recorded_wf(h: HistoryModel, change: Change, canvas_after: CanvasModel)
    requires
        h.wf(),
    ensures
        h.recorded(change, canvas_after).wf(),
{
    let n = h.changes.len() as int;
    let k = h.snapshot_interval as int;
    let h2 = h.recorded(change, canvas_after);
    lemma_div_step(n, k);
    if (n + 1) % k == 0 {
        assert forall|i: int| 0 <= i < h2.snapshots.len() implies #[trigger] h2.snapshots[i].change_count
            == i * k by {
            if i < h.snapshots.len() {
                assert(h2.snapshots[i] == h.snapshots[i]);
            }
        }
    }
}

/// If the canvas rebuilt from a history is `before`, then after a change is
/// logged with `before` changed by it as the canvas it produced, the canvas
/// rebuilt is that canvas.
pub proof fn lemma_recorded_reconstructs(h: HistoryModel, change: Change, canvas_after: CanvasModel)
    requires
        h.wf(),
        canvas_after == crate::change::apply_event_model(h.reconstructed(), change.event),
    ensures
        h.recorded(change, canvas_after).reconstructed() == canvas_after,
{
    let n = h.changes.len() as int;
    let k = h.snapshot_interval as int;
    let h2 = h.recorded(change, canvas_after);
    lemma_latest_within_log(h);
    if (n + 1) % k == 0 {
        assert(h2.changes.subrange(n + 1, n + 1) =~= Seq::<Change>::empty());
    } else {
        let s = h.snapshots.last();
        assert(h2.snapshots.last() == s);
        assert(h2.changes.subrange(s.change_count as int, n + 1) =~= h.changes.subrange(
            s.change_count as int,
            n,
        ).push(change));
        lemma_replay_push(s.canvas, h.changes.subrange(s.change_count as int, n), change);
    }
}

/// With an interval of `k`, after exactly `n * k` changes a history holds
/// `n + 1` snapshots, the newest one taken at change `n * k`.
pub proof fn lemma_snapshot_cadence(h: HistoryModel, n: nat)
    requires
        h.wf(),
        h.changes.len() == n * h.snapshot_interval,
    ensures
        h.snapshots.len() == n + 1,
        h.snapshots.last().change_count == n * h.snapshot_interval,
{
    vstd::arithmetic::div_mod::lemma_fundamental_div_mod_converse(
        (n * h.snapshot_interval) as int,
        h.snapshot_interval as int,
        n as int,
        0,
    );
}

/// The history that stored parts describe.
pub open spec fn parts_model(snapshots: Seq<Snapshot>, changes: Seq<Change>, snapshot_interval: usize) -> HistoryModel {
    HistoryModel {
        snapshots: snapshots.map_values(|s: Snapshot| s@),
        changes,
        snapshot_interval: snapshot_interval as nat,
    }
}

/// Taking a well-formed history apart and putting it together again gives an
/// equal history: its parts are accepted, and describe exactly it.
pub proof fn lemma_parts_round_trip(h: HistoryModel, snapshots: Seq<Snapshot>, changes: Seq<Change>, snapshot_interval: usize)
    requires
        h.wf(),
        snapshots.map_values(|s: Snapshot| s@) == h.snapshots,
        changes == h.changes,
        snapshot_interval == h.snapshot_interval,
    ensures
        parts_model(snapshots, changes, snapshot_interval).wf(),
        parts_model(snapshots, changes, snapshot_interval) == h,
{
}

/// Why a history could not be made.
#[derive(Clone, Copy, Debug, PartialEq, Eq, Structural)]
pub enum HistoryError {
    /// A snapshot interval of zero changes.
    ZeroSnapshotInterval,
}

/// The log of changes and its snapshots.
#[derive(Debug)]
pub struct History {
    snapshots: Vec<Snapshot>,
    changes: Vec<Change>,
    snapshot_interval: usize,
}

impl View for History {
    type V = HistoryModel;

    closed spec fn view(&self) -> HistoryModel {
        HistoryModel {
            snapshots: self.snapshots@.map_values(|s: Snapshot| s@),
            changes: self.changes@,
            snapshot_interval: self.snapshot_interval as nat,
        }
    }
}

impl History {
    pub open spec fn wf(&self) -> bool {
        self@.wf()
    }

    /// A history of no changes whose one snapshot is a copy of the initial canvas.
    /// A zero interval is refused.
    pub fn new(snapshot_interval: usize, initial_canvas: &Canvas) -> (r: Result<History, HistoryError>)
        ensures
            snapshot_interval == 0 ==> r == Err::<History, HistoryError>(HistoryError::ZeroSnapshotInterval),
            snapshot_interval > 0 ==> (r matches Ok(h) && h.wf() && h@ == HistoryModel::initial(
                snapshot_interval as nat,
                initial_canvas@,
            )),
    {
        if snapshot_interval == 0 {
            return Err(HistoryError::ZeroSnapshotInterval);
        }
        let initial_snapshot = Snapshot { canvas: initial_canvas.duplicate(), change_count: 0 };
        let mut snapshots: Vec<Snapshot> = Vec::new();
        snapshots.push(initial_snapshot);
        let h = History { snapshots, changes: Vec::new(), snapshot_interval };
        assert(0nat / (snapshot_interval as nat) == 0) by (nonlinear_arith)
            requires
                snapshot_interval > 0,
        ;
        assert(h@.snapshots[0].change_count == 0 * snapshot_interval);
        assert(h@.snapshots =~= HistoryModel::initial(snapshot_interval as nat, initial_canvas@).snapshots);
        assert(h@.changes =~= Seq::<Change>::empty());
        Ok(h)
    }

    /// A history made of stored parts; `None` unless they form a well-formed
    /// history.
    pub fn from_parts(snapshots: Vec<Snapshot>, changes: Vec<Change>, snapshot_interval: usize) -> (r:
        Option<History>)
        ensures
            r is Some <==> parts_model(snapshots@, changes@, snapshot_interval).wf(),
            r matches Some(h) ==> h@ == parts_model(snapshots@, changes@, snapshot_interval),
    {
        let ghost model = parts_model(snapshots@, changes@, snapshot_interval);
        if snapshot_interval == 0 {
            return None;
        }
        if snapshots.len() == 0 || snapshots.len() - 1 != changes.len() / snapshot_interval {
            return None;
        }
        let mut i: usize = 0;
        assert(changes.len() <= usize::MAX);
        while i < snapshots.len()
            invariant
                i <= snapshots@.len(),
                snapshot_interval > 0,
                snapshots@.len() == changes@.len() / (snapshot_interval as nat) + 1,
                changes@.len() <= usize::MAX,
                model.snapshots == snapshots@.map_values(|s: Snapshot| s@),
                forall|j: int|
                    0 <= j < i ==> #[trigger] model.snapshots[j].change_count == j * snapshot_interval,
            decreases snapshots@.len() - i,
        {
            proof {
                lemma_div_step(changes@.len() as int, snapshot_interval as int);
                assert(i * snapshot_interval <= (snapshots@.len() - 1) * snapshot_interval) by (
                nonlinear_arith)
                    requires
                        i <= snapshots@.len() - 1,
                        snapshot_interval > 0,
                ;
            }
            if snapshots[i].change_count != i * snapshot_interval {
                assert(model.snapshots[i as int].change_count != i * snapshot_interval);
                return None;
            }
            i = i + 1;
        }
        Some(History { snapshots, changes, snapshot_interval })
    }

    /// The snapshots, oldest first.
    pub fn snapshots(&self) -> (r: &Vec<Snapshot>)
        ensures
            r@.map_values(|s: Snapshot| s@) == self@.snapshots,
    {
        &self.snapshots
    }

    /// The changes, in the order they were applied.
    pub fn changes(&self) -> (r: &Vec<Change>)
        ensures
            r@ == self@.changes,
    {
        &self.changes
    }

    pub fn snapshot_interval(&self) -> (r: usize)
        ensures
            r == self@.snapshot_interval,
    {
        self.snapshot_interval
    }

    /// Appends the change to the log; when the number of changes reaches a
    /// multiple of the interval, also keeps a copy of the canvas it produced.
    pub fn record_change(&mut self, change: Change, current_canvas: &Canvas)
        requires
            old(self).wf(),
        ensures
            final(self).wf(),
            final(self)@ == old(self)@.recorded(change, current_canvas@),
    {
        let ghost before = self@;
        proof {
            lemma_recorded_wf(before, change, current_canvas@);
        }
        self.changes.push(change);
        if self.changes.len() % self.snapshot_interval == 0 {
            let snapshot = Snapshot {
                canvas: current_canvas.duplicate(),
                change_count: self.changes.len(),
            };
            self.snapshots.push(snapshot);
        }
        assert(self@.snapshots =~= before.recorded(change, current_canvas@).snapshots);
    }

    /// The number of changes logged.
    pub fn current_change_count(&self) -> (r: usize)
        ensures
            r == self@.changes.len(),
    {
        self.changes.len()
    }

    /// The snapshot with the greatest change count not above `change_index`.
    pub fn latest_snapshot_before(&self, change_index: usize) -> (r: Option<&Snapshot>)
        requires
            self.wf(),
        ensures
            r is Some,
            r matches Some(s) ==> exists|j: int|
                self@.is_latest_at(j, change_index as int) && #[trigger] self@.snapshots[j] == s@,
    {
        let ghost m = self@;
        let mut best: usize = 0;
        let mut i: usize = 1;
        assert(m.snapshots[0].change_count == 0);
        while i < self.snapshots.len()
            invariant
                m == self@,
                m.wf(),
                1 <= i <= m.snapshots.len(),
                best < i,
                m.snapshots[best as int].change_count <= change_index,
                forall|j: int|
                    0 <= j < i && #[trigger] m.snapshots[j].change_count <= change_index
                        ==> m.snapshots[j].change_count <= m.snapshots[best as int].change_count,
            decreases m.snapshots.len() - i,
        {
            assert(m.snapshots[i as int] == self.snapshots@[i as int]@);
            assert(m.snapshots[best as int] == self.snapshots@[best as int]@);
            if self.snapshots[i].change_count <= change_index && self.snapshots[i].change_count
                >= self.snapshots[best].change_count {
                best = i;
            }
            i = i + 1;
        }
        assert(m.is_latest_at(best as int, change_index as int));
        assert(m.snapshots[best as int] == self.snapshots@[best as int]@);
        Some(&self.snapshots[best])
    }

    /// The canvas rebuilt from the newest snapshot by replaying, in order,
    /// every change logged after it.
    pub fn reconstruct_canvas(&self) -> (r: Canvas)
        requires
            self.wf(),
        ensures
            r@ == self@.reconstructed(),
            r@.wf(),
    {
        let ghost m = self@;
        proof {
            lemma_latest_within_log(m);
        }
        let snapshot = &self.snapshots[self.snapshots.len() - 1];
        assert(snapshot@ == m.snapshots.last());
        let mut canvas = snapshot.canvas.duplicate();
        let start = snapshot.change_count;
        let mut i: usize = start;
        assert(m.changes.subrange(start as int, start as int) =~= Seq::<Change>::empty());
        while i < self.changes.len()
            invariant
                m == self@,
                start <= i <= m.changes.len(),
                canvas@.wf(),
                canvas@ == replay(m.snapshots.last().canvas, m.changes.subrange(start as int, i as int)),
            decreases m.changes.len() - i,
        {
            let change = &self.changes[i];
            let _ = change.event.apply(&mut canvas);
            proof {
                assert(m.changes.subrange(start as int, i + 1) =~= m.changes.subrange(
                    start as int,
                    i as int,
                ).push(*change));
                lemma_replay_push(
                    m.snapshots.last().canvas,
                    m.changes.subrange(start as int, i as int),
                    *change,
                );
            }
            i = i + 1;
        }
        canvas
    }
}

} // verus!
