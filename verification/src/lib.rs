//! Core of a terminal audio recorder: capture bookkeeping, downmixing,
//! loudness and spectrum analysis in fixed-point arithmetic, scrolling
//! waveform display, and the decision logic of the recording loop.

pub mod capture;
pub mod config;
pub mod devices;
pub mod dsp;
pub mod format;
pub mod history;
pub mod meter;
pub mod model_files;
pub mod session;
pub mod spectrum;
pub mod text;
pub mod transcription;
pub mod version;
pub mod waveform;
