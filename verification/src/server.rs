//! The RTMP side: what happens when a stream is published, and the life cycle
//! of the staged (previewed, not yet published) stream.

pub mod handler;
pub mod state;
