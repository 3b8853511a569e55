//! Streaming audio playback while the download is still in progress: a
//! growable byte buffer with a separate end-of-stream flag, a seekable reader
//! over it that tells "no bytes yet" from "end of stream", the decisions of
//! the decode loop, and the queue that feeds the real-time audio callback.

pub mod buffer;
pub mod decode;
pub mod playback;
pub mod reader;
pub mod session;
