use pixie::canvas::Canvas;
use pixie::change::{Change, ChangeEvent, ResizeAnchor};
use pixie::color::Color;
use pixie::history::{History, HistoryError, Snapshot};

fn paint(x: usize, y: usize, c: Color) -> Change {
    Change { event: ChangeEvent::Paint { x, y, color: c }, timestamp: 7 }
}

fn same_canvas(a: &Canvas, b: &Canvas) -> bool {
    a.width() == b.width() && a.height() == b.height() && a.pixels() == b.pixels()
}

#[test]
fn new_history_has_one_snapshot_at_zero() {
    let canvas = Canvas::new(2, 2).unwrap();
    let h = History::new(3, &canvas).unwrap();
    assert_eq!(h.snapshots().len(), 1);
    assert_eq!(h.snapshots()[0].change_count, 0);
    assert_eq!(h.current_change_count(), 0);
    assert_eq!(h.snapshot_interval(), 3);
}

#[test]
fn snapshot_cadence_every_k_changes() {
    for k in 1usize..5 {
        let mut canvas = Canvas::new(2, 2).unwrap();
        let mut h = History::new(k, &canvas).unwrap();
        for n in 1usize..=4 {
            for _ in 0..k {
                canvas.set_pixel(0, 0, Color::black()).unwrap();
                h.record_change(paint(0, 0, Color::black()), &canvas);
            }
            assert_eq!(h.snapshots().len(), n + 1);
            assert_eq!(h.snapshots().last().unwrap().change_count, n * k);
        }
    }
}

#[test]
fn snapshot_not_taken_between_multiples() {
    let canvas = Canvas::new(1, 1).unwrap();
    let mut h = History::new(3, &canvas).unwrap();
    h.record_change(paint(0, 0, Color::black()), &canvas);
    h.record_change(paint(0, 0, Color::black()), &canvas);
    assert_eq!(h.snapshots().len(), 1);
    h.record_change(paint(0, 0, Color::black()), &canvas);
    assert_eq!(h.snapshots().len(), 2);
    assert_eq!(h.snapshots()[1].change_count, 3);
}

#[test]
fn latest_snapshot_before_picks_greatest_not_above() {
    let canvas = Canvas::new(1, 1).unwrap();
    let mut h = History::new(2, &canvas).unwrap();
    for _ in 0..5 {
        h.record_change(paint(0, 0, Color::black()), &canvas);
    }
    assert_eq!(h.latest_snapshot_before(0).unwrap().change_count, 0);
    assert_eq!(h.latest_snapshot_before(1).unwrap().change_count, 0);
    assert_eq!(h.latest_snapshot_before(2).unwrap().change_count, 2);
    assert_eq!(h.latest_snapshot_before(3).unwrap().change_count, 2);
    assert_eq!(h.latest_snapshot_before(4).unwrap().change_count, 4);
    assert_eq!(h.latest_snapshot_before(100).unwrap().change_count, 4);
}

#[test]
fn reconstruct_replays_after_latest_snapshot() {
    let mut live = Canvas::new(3, 3).unwrap();
    let mut h = History::new(2, &live).unwrap();
    let events = [
        ChangeEvent::Paint { x: 0, y: 0, color: Color::black() },
        ChangeEvent::Paint { x: 2, y: 2, color: Color::new(1, 2, 3) },
        ChangeEvent::Resize { anchor: ResizeAnchor::BottomRight, width: 4, height: 5 },
        ChangeEvent::Paint { x: 3, y: 4, color: Color::new(4, 5, 6) },
        ChangeEvent::Resize { anchor: ResizeAnchor::Center, width: 2, height: 2 },
    ];
    for e in events {
        e.apply(&mut live).unwrap();
        h.record_change(Change { event: e, timestamp: 1 }, &live);
        assert!(same_canvas(&h.reconstruct_canvas(), &live));
    }
}

#[test]
fn from_parts_round_trip() {
    let mut live = Canvas::new(2, 2).unwrap();
    let mut h = History::new(2, &live).unwrap();
    for i in 0..5usize {
        live.set_pixel(i % 2, 0, Color::new(i as u8, 0, 0)).unwrap();
        h.record_change(paint(i % 2, 0, Color::new(i as u8, 0, 0)), &live);
    }
    let snapshots: Vec<Snapshot> = h
        .snapshots()
        .iter()
        .map(|s| Snapshot { canvas: s.canvas.duplicate(), change_count: s.change_count })
        .collect();
    let back = History::from_parts(snapshots, h.changes().clone(), h.snapshot_interval()).unwrap();
    assert_eq!(back.changes(), h.changes());
    assert_eq!(back.snapshot_interval(), 2);
    assert_eq!(back.snapshots().len(), h.snapshots().len());
    for (a, b) in back.snapshots().iter().zip(h.snapshots().iter()) {
        assert_eq!(a.change_count, b.change_count);
        assert!(same_canvas(&a.canvas, &b.canvas));
    }
    assert!(same_canvas(&back.reconstruct_canvas(), &live));
}

#[test]
fn from_parts_rejects_broken_cadence() {
    let canvas = Canvas::new(1, 1).unwrap();
    let snap = |n: usize| Snapshot { canvas: canvas.duplicate(), change_count: n };
    let changes = vec![paint(0, 0, Color::black()); 3];
    assert!(History::from_parts(vec![snap(0), snap(2)], changes.clone(), 2).is_some());
    assert!(History::from_parts(vec![snap(0), snap(2)], changes.clone(), 0).is_none());
    assert!(History::from_parts(vec![snap(0)], changes.clone(), 2).is_none());
    assert!(History::from_parts(vec![snap(0), snap(3)], changes.clone(), 2).is_none());
    assert!(History::from_parts(vec![snap(1), snap(2)], changes.clone(), 2).is_none());
    assert!(History::from_parts(vec![], vec![], 2).is_none());
}

#[test]
fn zero_interval_is_refused() {
    let canvas = Canvas::new(1, 1).unwrap();
    assert_eq!(History::new(0, &canvas).unwrap_err(), HistoryError::ZeroSnapshotInterval);
}
