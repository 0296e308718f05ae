//! A virtual thermal receipt printer: an interpreter for ESC/POS byte
//! streams that keeps the printer's state, emits receipt elements and
//! queues the status bytes a driver expects on the reverse channel.
//!
//! * [`parser`] holds the interpreter itself, [`parser::EscPosRenderer`].
//! * [`grammar`] says where each command ends, [`model`] what it does; the
//!   interpreter is proved to do exactly that.
//! * [`laws`] holds what is proved of every stream: that the cut of a
//!   stream into chunks does not matter, that no payload byte reaches the
//!   text, that the horizontal offset is used once, and more.
//! * [`state`] and [`element`] hold the formatting state and the elements
//!   of a receipt, [`text`] the decoding of lines, [`raster`] and [`qr`] the
//!   bitmaps, [`paper`] and [`receipt`] what a host keeps around them.

pub mod element;
pub mod grammar;
pub mod laws;
pub mod model;
pub mod paper;
pub mod parser;
pub mod qr;
pub mod raster;
pub mod receipt;
pub mod state;
pub mod text;
