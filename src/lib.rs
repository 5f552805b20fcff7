//! Scheduling and layout engine for scrolling timed comments ("danmaku")
//! drawn over a playing video.
//!
//! - `comment`: the comment record, building it from a service record, the
//!   load-time sort and the epoch reset.
//! - `lane`: the lane allocator.
//! - `engine`: one render tick (visibility, entry position, scrolling, rows).
//! - `session`: the controller that answers player events with commands.
//! - `parse`: option lines, decimals and record parameter fields.
//! - `matching`: the media hash and the choice of the matched episode.
//! - `ffi`: the host player's event kinds, formats and error codes as values.

pub mod comment;
pub mod engine;
pub mod ffi;
pub mod lane;
pub mod matching;
pub mod parse;
pub mod session;
