//! Out-of-core playback core for sequences of point-cloud frames.
//!
//! The crate decodes the fixed-width binary point and label record formats,
//! resolves a sequence folder layout, and drives a bounded prefetch window
//! with generation-tagged background decode results.  All file and clock
//! I/O stays outside: callers hand in bytes, directory listings and elapsed
//! frame counts, and perform the decode dispatches this core decides on.

pub mod codec;
pub mod player;
pub mod request;
pub mod sequence;
