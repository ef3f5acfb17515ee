//! Verified driver core for a board-game analysis engine.
//!
//! The library linearizes a recorded game's principal variation, encodes
//! one analysis query per position as a newline-terminated JSON line,
//! tracks the engine session's framing state machine, interprets each
//! response line into a structured verdict, and assembles the annotated
//! result. All I/O (process spawning, the byte stream itself, file and
//! configuration reading) stays outside the library.
pub mod model;
pub mod linearize;
pub mod numfmt;
pub mod coords;
pub mod parse;
pub mod verdict;
pub mod reader;
pub mod wire;
pub mod session;
pub mod run;
