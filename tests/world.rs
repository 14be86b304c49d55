use pixie::canvas::CanvasError;
use pixie::change::{ChangeEvent, ResizeAnchor};
use pixie::color::Color;
use pixie::world::{World, WorldError};

fn same_as_live(w: &World) -> bool {
    let r = w.history().reconstruct_canvas();
    let c = w.canvas();
    r.width() == c.width() && r.height() == c.height() && r.pixels() == c.pixels()
}

#[test]
fn end_to_end_three_by_three() {
    let mut w = World::new(3, 3, 2).unwrap();
    w.apply_event(ChangeEvent::Paint { x: 0, y: 0, color: Color::from_hex("#000000").unwrap() }).unwrap();
    w.apply_event(ChangeEvent::Paint { x: 1, y: 1, color: Color::from_hex("#FF0000").unwrap() }).unwrap();
    let counts: Vec<usize> = w.history().snapshots().iter().map(|s| s.change_count).collect();
    assert_eq!(counts, vec![0, 2]);
    w.apply_event(ChangeEvent::Resize { anchor: ResizeAnchor::TopLeft, width: 4, height: 4 }).unwrap();
    assert_eq!(w.dimensions(), (4, 4));
    assert_eq!(w.canvas().get_pixel(0, 0).unwrap().to_hex(), "#000000");
    assert_eq!(w.canvas().get_pixel(1, 1).unwrap().to_hex(), "#FF0000");
    assert_eq!(w.canvas().get_pixel(3, 3).unwrap().to_hex(), "#FFFFFF");
    assert_eq!(w.change_count(), 3);
    assert!(same_as_live(&w));
}

#[test]
fn failed_event_leaves_world_untouched() {
    let mut w = World::new(2, 2, 1).unwrap();
    assert_eq!(
        w.apply_event(ChangeEvent::Paint { x: 2, y: 0, color: Color::black() }),
        Err(CanvasError::OutOfBounds { width: 2, height: 2 })
    );
    assert_eq!(
        w.apply_event(ChangeEvent::Resize { anchor: ResizeAnchor::Center, width: 0, height: 1 }),
        Err(CanvasError::InvalidDimensions { width: 0, height: 1 })
    );
    assert_eq!(w.change_count(), 0);
    assert_eq!(w.history().snapshots().len(), 1);
    assert!(w.canvas().pixels().iter().all(|p| *p == Color::white()));
}

#[test]
fn reconstruction_matches_live_after_mixed_sequence() {
    for k in 1usize..6 {
        let mut w = World::new(5, 4, k).unwrap();
        let mut seed: usize = 17;
        for i in 0..40usize {
            seed = (seed * 1103515245 + 12345) % 2147483648;
            let event = if i % 7 == 6 {
                let anchors = [
                    ResizeAnchor::TopLeft,
                    ResizeAnchor::TopRight,
                    ResizeAnchor::BottomLeft,
                    ResizeAnchor::BottomRight,
                    ResizeAnchor::Center,
                ];
                ChangeEvent::Resize { anchor: anchors[seed % 5], width: 1 + seed % 7, height: 1 + (seed / 7) % 6 }
            } else {
                ChangeEvent::Paint {
                    x: seed % 8,
                    y: (seed / 8) % 8,
                    color: Color::new(seed as u8, (seed >> 8) as u8, (seed >> 16) as u8),
                }
            };
            let _ = w.apply_event(event);
            assert!(same_as_live(&w));
        }
    }
}

#[test]
fn apply_event_at_records_timestamp() {
    let mut w = World::new(2, 2, 10).unwrap();
    w.apply_event_at(ChangeEvent::Paint { x: 1, y: 1, color: Color::black() }, 1234).unwrap();
    assert_eq!(w.history().changes()[0].timestamp, 1234);
    assert_eq!(w.history().changes()[0].event, ChangeEvent::Paint { x: 1, y: 1, color: Color::black() });
}

#[test]
fn world_rejects_bad_dimensions() {
    assert_eq!(
        World::new(0, 3, 1).unwrap_err(),
        WorldError::Canvas(CanvasError::InvalidDimensions { width: 0, height: 3 })
    );
    assert_eq!(
        World::new(0, 3, 0).unwrap_err(),
        WorldError::Canvas(CanvasError::InvalidDimensions { width: 0, height: 3 })
    );
    assert_eq!(World::new(3, 3, 0).unwrap_err(), WorldError::ZeroSnapshotInterval);
    assert_eq!(World::with_loaded_history(None, 3, 3, 0).unwrap_err(), WorldError::ZeroSnapshotInterval);
}

#[test]
fn loaded_history_rebuilds_canvas() {
    let mut w = World::new(3, 2, 2).unwrap();
    for i in 0..5usize {
        w.apply_event(ChangeEvent::Paint { x: i % 3, y: i % 2, color: Color::new(i as u8, 1, 1) }).unwrap();
    }
    let h = w.history();
    let snapshots = h
        .snapshots()
        .iter()
        .map(|s| pixie::history::Snapshot { canvas: s.canvas.duplicate(), change_count: s.change_count })
        .collect();
    let copy = pixie::history::History::from_parts(snapshots, h.changes().clone(), h.snapshot_interval()).unwrap();
    let loaded = World::with_loaded_history(Some(copy), 3, 2, 2).unwrap();
    assert_eq!(loaded.canvas().pixels(), w.canvas().pixels());
    assert_eq!(loaded.change_count(), 5);
}

#[test]
fn missing_history_gives_blank_world() {
    let w = World::with_loaded_history(None, 4, 3, 5).unwrap();
    assert_eq!(w.dimensions(), (4, 3));
    assert_eq!(w.change_count(), 0);
    assert_eq!(w.history().snapshot_interval(), 5);
    assert!(World::with_loaded_history(None, 0, 3, 5).is_err());
}
