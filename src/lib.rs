//! A shared pixel canvas with an event-sourced history: colours, canvases,
//! change events, snapshot history, the world that keeps canvas and log in
//! lockstep, and the session and protocol rules of the canvas server.
pub mod canvas;
pub mod change;
pub mod color;
pub mod env;
pub mod history;
pub mod messages;
pub mod persistence;
pub mod protocol;
pub mod session;
mod text;
pub mod world;
