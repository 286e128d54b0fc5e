//! Presents USB Taiko drums to a game console as wireless Pro Controllers.
//!
//! The crate holds the decisions and the byte formats: what a report looks
//! like, how the pairing handshake answers, how drum hits become buttons, which
//! adapter serves which drum. Sockets, threads and processes live in the
//! program around it.
pub mod clock;
pub mod color;
pub mod connect;
pub mod deploy;
pub mod drum;
pub mod handshake;
pub mod pairing;
pub mod pool;
pub mod privilege;
pub mod report;
pub mod sdp;
pub mod session;
pub mod spi;
pub mod text;
pub mod timer;

pub use crate::drum::{find_drums, hid_to_button_state};
pub use crate::handshake::Handshake;
pub use crate::report::{idle_report, input_report, ButtonState};
pub use crate::timer::Timer;
