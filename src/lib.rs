//! Ingest side of a live video player: the binary message envelope, the
//! keyframe gate of the elementary stream, decoder backend preference, the
//! decode pipeline supervisor and the latest-wins frame sink.
pub mod backend;
pub mod keyframe;
pub mod wire;
pub mod supervisor;
pub mod sink;
