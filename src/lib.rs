//! Normalises audio files for dataset preparation: every output has a fixed
//! sample rate, 32-bit float samples, and a duration held within a window
//! (longer sources are truncated, shorter ones padded with silence).
//!
//! - [`config`]: the shared settings and the sample counts they imply.
//! - [`pipeline`]: the per-file transcode state machine and its guarantees.
//! - [`tool`]: the alternate strategy that runs an external media tool.
//! - [`batch`]: aggregate counting over a batch of files.
//! - [`discovery`]: which input files are audio.
pub mod batch;
pub mod config;
pub mod discovery;
pub mod pipeline;
pub mod tool;
