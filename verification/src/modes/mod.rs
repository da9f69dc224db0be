//! The two ways of limiting that a window with two modes offers: one program's volume through the
//! system's mixer, or everything that goes through a virtual sound card.

pub mod cable;
pub mod config;
pub mod limiter;
pub mod volume;
pub mod window;
