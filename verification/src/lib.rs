//! The logic of Sound Lock, which keeps loud sounds below a ceiling.
//!
//! Sound comes in from one device, goes through the limiter and comes out at another
//! device. `input` is the side that captures, `limiter` is what it sends the frames
//! through, `loudness` is what listeners may rely on of it, `ring` is what lies between the two sides, and `playback` is the side that plays
//! and keeps the two clocks together. `geometry` sizes the ring, `devices` picks the devices,
//! `session` is the way from the look whether a session is wanted to its end, and
//! `supervisor` decides when one is tried again.
//! `runtime_params` hands new settings from `config` to the running limiter. `recorder`
//! keeps the unlimited sound in a file.
//!
//! Around this stand the windows (`settings`, `crosshair`, `tray`, `icon`), the files
//! (`storage`), the counters (`diagnostics`) and the search for the virtual sound card
//! (`setup`). `modes` is a smaller limiter with a window of its own.
//!
//! Numbers of single precision are held as their bits (`single`), and `values` says what those
//! with a name stand for. What rounds is asked of
//! the machine (`arithmetic`); what only compares or picks is done and proved here.
//!
//! What several threads share is a struct of plain cells. Whoever works on such cells is a
//! machine that names its next access and takes in the answer, so that the laws hold however
//! the accesses of several threads fall between each other.

pub mod arithmetic;
pub mod config;
pub mod crosshair;
pub mod devices;
pub mod diagnostics;
pub mod geometry;
pub mod icon;
pub mod input;
pub mod limiter;
pub mod loudness;
pub mod modes;
pub mod playback;
pub mod recorder;
pub mod ring;
pub mod runtime_params;
pub mod session;
pub mod settings;
pub mod setup;
pub mod single;
pub mod storage;
pub mod supervisor;
pub mod text;
pub mod tray;
pub mod values;
