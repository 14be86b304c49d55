//! What the server does with each client message: the decisions of the
//! connection handler, from the world and the message to the reply and its
//! recipients.
use crate::canvas::{dims_fit, Canvas, CanvasModel};
use crate::change::{event_applies, ChangeEvent};
use crate::color::{color_hex, parse_hex_color, Color};
use crate::messages::{ClientMessage, ServerMessage};
use crate::world::{World, WorldModel};
use vstd::prelude::*;

verus! {

/// Who a reply goes to.
#[derive(Clone, Debug, PartialEq, Eq)]
pub enum Delivery {
    /// Every registered session, the sender included.
    ToAll(ServerMessage),
    /// The sender only.
    ToSender(ServerMessage),
    /// No one: the message was dropped.
    Nothing,
}

/// The board of a canvas: one row per line, each pixel as `#RRGGBB`.
pub open spec fn board_of(m: CanvasModel) -> Seq<Seq<Seq<char>>> {
    Seq::new(m.height, |y: int| Seq::new(m.width, |x: int| color_hex(m.pixel(x, y))))
}

/// The text of a board.
pub open spec fn board_view(board: Seq<Vec<String>>) -> Seq<Seq<Seq<char>>> {
    board.map_values(|row: Vec<String>| row@.map_values(|s: String| s@))
}

/// Whether the message is the full board of the canvas.
pub open spec fn is_init_of(msg: ServerMessage, m: CanvasModel) -> bool {
    match msg {
        ServerMessage::Init { width, height, board, cooldown } => {
            &&& width == m.width
            &&& height == m.height
            &&& board_view(board@) == board_of(m)
            &&& cooldown == 0
        },
        _ => false,
    }
}

/// The colour that a paint message carries, when its text is `#RRGGBB`.
pub open spec fn paint_color(s: Seq<char>) -> Option<Color> {
    match parse_hex_color(s) {
        Ok(c) => Some(c),
        Err(_) => None,
    }
}

/// The full board of the canvas, to be sent to a client that connects.
pub fn init_message(canvas: &Canvas) -> (r: ServerMessage)
    ensures
        is_init_of(r, canvas@),
{
    let width = canvas.width();
    let height = canvas.height();
    let ghost m = canvas@;
    let mut board: Vec<Vec<String>> = Vec::new();
    let mut y: usize = 0;
    while y < height
        invariant
            m == canvas@,
            width == m.width,
            height == m.height,
            y <= height,
            board_view(board@) == board_of(m).take(y as int),
        decreases height - y,
    {
        let mut row: Vec<String> = Vec::new();
        let mut x: usize = 0;
        while x < width
            invariant
                m == canvas@,
                width == m.width,
                height == m.height,
                y < height,
                x <= width,
                row@.map_values(|s: String| s@) == board_of(m)[y as int].take(x as int),
            decreases width - x,
        {
            let c = match canvas.get_pixel(x, y) {
                Ok(c) => c,
                Err(_) => Color::white(),
            };
            let h = c.to_hex();
            let ghost prev = row@.map_values(|s: String| s@);
            assert(c == m.pixel(x as int, y as int));
            assert(board_of(m)[y as int][x as int] == color_hex(c));
            row.push(h);
            assert(row@.map_values(|s: String| s@) =~= prev.push(h@));
            x = x + 1;
            assert(row@.map_values(|s: String| s@) =~= board_of(m)[y as int].take(x as int));
        }
        assert(board_of(m)[y as int].take(width as int) =~= board_of(m)[y as int]);
        let ghost prev = board_view(board@);
        let ghost rv = row@.map_values(|s: String| s@);
        board.push(row);
        assert(board_view(board@) =~= prev.push(rv));
        y = y + 1;
        assert(board_view(board@) =~= board_of(m).take(y as int));
    }
    assert(board_of(m).take(height as int) =~= board_of(m));
    ServerMessage::Init { width, height, board, cooldown: 0 }
}

/// Reads the colour of a paint message.
pub fn parse_paint_color(color: &str) -> (r: Option<Color>)
    ensures
        r == paint_color(color@),
{
    match Color::from_hex(color) {
        Ok(c) => Some(c),
        Err(_) => None,
    }
}

/// Handles one message from a client, with `client_count` sessions
/// registered. A paint with a valid colour inside the canvas is applied and
/// its update goes to everyone; a resize to possible dimensions is applied and
/// the new board goes to everyone; a ping is answered to the sender alone.
/// Anything else is dropped and changes nothing.
pub fn handle_client_message(world: &mut World, msg: ClientMessage, client_count: usize) -> (r:
    Delivery)
    requires
        old(world).wf(),
    ensures
        final(world).wf(),
        match msg {
            ClientMessage::Paint { x, y, color } => match paint_color(color@) {
                Some(c) => if event_applies(old(world)@.canvas, ChangeEvent::Paint { x, y, color: c }) {
                    &&& final(world)@ == old(world)@.applied(
                        ChangeEvent::Paint { x, y, color: c },
                        final(world)@.history.changes.last().timestamp,
                    )
                    &&& r matches Delivery::ToAll(ServerMessage::Update { x: ux, y: uy, color: uc })
                    &&& ux == x
                    &&& uy == y
                    &&& uc@ == color_hex(c)
                } else {
                    r == Delivery::Nothing && final(world)@ == old(world)@
                },
                None => r == Delivery::Nothing && final(world)@ == old(world)@,
            },
            ClientMessage::Ping => {
                &&& r == Delivery::ToSender(ServerMessage::Pong { clients: client_count })
                &&& final(world)@ == old(world)@
            },
            ClientMessage::Resize { width, height, anchor } => if dims_fit(width as int, height as int) {
                &&& final(world)@ == old(world)@.applied(
                    ChangeEvent::Resize { anchor, width, height },
                    final(world)@.history.changes.last().timestamp,
                )
                &&& r matches Delivery::ToAll(m)
                &&& is_init_of(m, final(world)@.canvas)
            } else {
                r == Delivery::Nothing && final(world)@ == old(world)@
            },
        },
{
    match msg {
        ClientMessage::Paint { x, y, color } => {
            let c = match parse_paint_color(color.as_str()) {
                Some(c) => c,
                None => {
                    return Delivery::Nothing;
                },
            };
            match world.apply_event(ChangeEvent::Paint { x, y, color: c }) {
                Ok(()) => Delivery::ToAll(ServerMessage::Update { x, y, color: c.to_hex() }),
                Err(_) => Delivery::Nothing,
            }
        },
        ClientMessage::Ping => Delivery::ToSender(ServerMessage::Pong { clients: client_count }),
        ClientMessage::Resize { width, height, anchor } => {
            match world.apply_event(ChangeEvent::Resize { anchor, width, height }) {
                Ok(()) => Delivery::ToAll(init_message(world.canvas())),
                Err(_) => Delivery::Nothing,
            }
        },
    }
}

/// Of two paints of the same pixel, applied one after the other in either
/// order, the pixel ends with the colour of the one applied last, and both are
/// logged, in that order.
pub proof fn lemma_last_paint_wins(
    w: WorldModel,
    x: usize,
    y: usize,
    first: Color,
    second: Color,
    t1: u64,
    t2: u64,
)
    requires
        w.wf(),
        w.canvas.contains(x as int, y as int),
    ensures
        ({
            let e1 = ChangeEvent::Paint { x, y, color: first };
            let e2 = ChangeEvent::Paint { x, y, color: second };
            let after = w.applied(e1, t1).applied(e2, t2);
            &&& after.canvas.pixel(x as int, y as int) == second
            &&& after.history.changes == w.history.changes.push(
                crate::change::Change { event: e1, timestamp: t1 },
            ).push(crate::change::Change { event: e2, timestamp: t2 })
        }),
{
    let idx = y * w.canvas.width + x;
    assert(0 <= idx < w.canvas.width * w.canvas.height) by (nonlinear_arith)
        requires
            0 <= x < w.canvas.width,
            0 <= y < w.canvas.height,
            idx == y * w.canvas.width + x,
    ;
}

} // verus!
