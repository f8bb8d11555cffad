//! Run-length decoder and frame pacing for a 1-bit-per-pixel video stream.
//!
//! The stream encodes 128x64 one-bit bitmaps, 1024 bytes per frame. Runs of
//! all-zero or all-one bytes are compressed behind two escape markers; the
//! decoder expands them into a fixed frame buffer, one frame per call, and
//! loops back to the start of the stream when it is exhausted. A small
//! pacing module computes the timing budget of the playback loop.

pub mod pump;
pub mod rle;
