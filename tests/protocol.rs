use pixie::change::ResizeAnchor;
use pixie::color::Color;
use pixie::messages::{ClientMessage, ServerMessage};
use pixie::persistence::{backup_path, temp_path};
use pixie::protocol::{handle_client_message, init_message, parse_paint_color, Delivery};
use pixie::world::World;

fn paint(x: usize, y: usize, color: &str) -> ClientMessage {
    ClientMessage::Paint { x, y, color: color.to_string() }
}

#[test]
fn accepted_paint_is_broadcast_once() {
    let mut w = World::new(3, 3, 10).unwrap();
    let d = handle_client_message(&mut w, paint(1, 2, "#ff0000"), 4);
    assert_eq!(d, Delivery::ToAll(ServerMessage::Update { x: 1, y: 2, color: "#FF0000".to_string() }));
    assert_eq!(w.change_count(), 1);
    assert_eq!(w.canvas().get_pixel(1, 2), Ok(Color::new(255, 0, 0)));
}

#[test]
fn bad_paints_are_dropped() {
    let mut w = World::new(3, 3, 10).unwrap();
    for msg in [paint(0, 0, "FF0000"), paint(0, 0, "#FF000"), paint(0, 0, "##FF0000"), paint(0, 0, "#GG0000"), paint(3, 0, "#000000"), paint(0, 9, "#000000")] {
        assert_eq!(handle_client_message(&mut w, msg, 1), Delivery::Nothing);
    }
    assert_eq!(w.change_count(), 0);
}

#[test]
fn ping_answers_sender_with_count() {
    let mut w = World::new(1, 1, 1).unwrap();
    assert_eq!(handle_client_message(&mut w, ClientMessage::Ping, 7), Delivery::ToSender(ServerMessage::Pong { clients: 7 }));
    assert_eq!(w.change_count(), 0);
}

#[test]
fn resize_message_sends_new_board_to_all() {
    let mut w = World::new(1, 1, 1).unwrap();
    let d = handle_client_message(&mut w, ClientMessage::Resize { width: 2, height: 1, anchor: ResizeAnchor::TopRight }, 1);
    assert_eq!(
        d,
        Delivery::ToAll(ServerMessage::Init {
            width: 2,
            height: 1,
            board: vec![vec!["#FFFFFF".to_string(), "#FFFFFF".to_string()]],
            cooldown: 0
        })
    );
    assert_eq!(w.dimensions(), (2, 1));
    let bad = handle_client_message(&mut w, ClientMessage::Resize { width: 0, height: 1, anchor: ResizeAnchor::TopRight }, 1);
    assert_eq!(bad, Delivery::Nothing);
}

#[test]
fn init_board_is_row_major() {
    let mut w = World::new(2, 3, 5).unwrap();
    handle_client_message(&mut w, paint(1, 0, "#010203"), 1);
    handle_client_message(&mut w, paint(0, 2, "#0A0B0C"), 1);
    match init_message(w.canvas()) {
        ServerMessage::Init { width, height, board, cooldown } => {
            assert_eq!((width, height, cooldown), (2, 3, 0));
            assert_eq!(board.len(), 3);
            assert_eq!(board[0], vec!["#FFFFFF", "#010203"]);
            assert_eq!(board[1], vec!["#FFFFFF", "#FFFFFF"]);
            assert_eq!(board[2], vec!["#0A0B0C", "#FFFFFF"]);
        }
        other => panic!("unexpected {:?}", other),
    }
}

#[test]
fn last_of_two_paints_wins() {
    for (first, second) in [("#111111", "#222222"), ("#222222", "#111111")] {
        let mut w = World::new(2, 2, 10).unwrap();
        let a = handle_client_message(&mut w, paint(1, 1, first), 2);
        let b = handle_client_message(&mut w, paint(1, 1, second), 2);
        assert!(matches!(a, Delivery::ToAll(ServerMessage::Update { .. })));
        assert!(matches!(b, Delivery::ToAll(ServerMessage::Update { .. })));
        assert_eq!(w.canvas().get_pixel(1, 1).unwrap().to_hex(), second);
        assert_eq!(w.change_count(), 2);
    }
}

#[test]
fn paint_color_needs_seven_characters() {
    assert_eq!(parse_paint_color("#00ff00"), Some(Color::new(0, 255, 0)));
    assert_eq!(parse_paint_color("00ff00"), None);
    assert_eq!(parse_paint_color("#00ff0"), None);
    assert_eq!(parse_paint_color("#00ff0é"), None);
}

#[test]
fn storage_paths_sit_beside_target() {
    assert_eq!(temp_path("history.bin"), "history.bin.tmp");
    assert_eq!(backup_path("data/h.bin"), "data/h.bin.bak");
}
