//! Decoding of animated GIF files into timed RGBA frames, and the playback
//! cursor that decides which frame is on screen and when to redraw next.
//!
//! Times are counted in nanoseconds on a monotonic clock whose origin the
//! host chooses; durations are nanoseconds too.

pub mod demo;
pub mod frames;
pub mod playback;

pub use demo::{App, Message};
pub use frames::{Error, Frame, Frames, RawFrame};
pub use playback::{PlaybackCursor, RedrawDeadline};
