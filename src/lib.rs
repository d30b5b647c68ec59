//! An animated terminal rain effect: drops appear at random places inside a
//! margin, grow through a fixed sequence of glyph sets, and vanish.
//!
//! The library holds the drop state machine, the spawner and the frame
//! compositor; the frame comes out as text that the caller writes to the
//! terminal.
pub mod escape;
pub mod opts;
pub mod rain;
pub mod raindrop;
pub mod session;
