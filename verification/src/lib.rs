//! A bridge between a game client's chat and a sound engine: chat lines that the
//! host has split are put together again, the trigger phrase of a message is found
//! and turned into a request to the engine, and short status lines are shown on a
//! rolling overlay of three slots. Every function here decides or computes; the
//! host and the engine are reached by the caller.

pub mod chat;
pub mod dispatch;
pub mod display;
pub mod lifecycle;
pub mod preview;
pub mod printer;
pub mod text;
