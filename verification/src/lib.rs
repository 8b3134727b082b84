//! A small file-transfer protocol library: a versioned binary header codec,
//! frame validation with file-name sanitization, the streaming transfer
//! engine's bounded hand-off queue and progress accounting, the uploader's
//! frame builder, and the sequential connection dispatcher's decision rules.
//!
//! All socket, file and thread plumbing lives outside this crate; the crate
//! works on plain byte buffers and values, so every function here is verified.

pub mod dispatch;
pub mod engine;
pub mod frame;
pub mod header;
pub mod upload;
