//! Capture the interesting lines of a local file as timestamped log events,
//! ready to be published to a cloud log service as one batch.
//!
//! The heart of the crate is the line selector: given the lines of a file, a
//! `head` count and a `tail` count, it produces the ordered sequence of log
//! events covering all lines, the first `head`, the last `tail`, or both.
//! Around it stand the small decisions the publishing path makes: naming the
//! per-run log stream and classifying the outcome of creating it.

pub mod event;
pub mod publish;
pub mod selection;
