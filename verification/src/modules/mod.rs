//! Adapters of the pipeline's modules. Each one only builds a
//! `ProcessSpec`; the models run later through the shared subprocess runner.

pub mod cleanup;
pub mod common;
pub mod ffmpeg;
pub mod latentsync;
pub mod translation;
pub mod tts;
pub mod whisper;
pub mod planner;

pub use planner::ConfiguredPlanner;
