//! Coordination substrate for synchronized multi-device audio playback:
//! a four-timestamp clock-offset estimator, a fixed-point drift controller,
//! the authoritative playback state with its control operations, the peer
//! session logic, the client engine decisions, and the wire codecs.

pub mod client;
pub mod clock;
pub mod hexfmt;
pub mod messages;
pub mod pid;
pub mod playback;
pub mod session;
pub mod wire;
pub mod wire_binary;
pub mod wire_text;

pub use clock::ClockOffset;
