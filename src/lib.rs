//! Telemetry core of a hardware monitor: GPU discovery decisions, per-vendor
//! metric extraction with fallback chains, smoothing, rolling histories and
//! the history-to-path transform, all on fixed-point integers.

pub mod fixed;
pub mod path;
pub mod history;
pub mod smoothing;
pub mod text;
pub mod discovery;
pub mod metrics;
pub mod display;
pub mod monitor;
pub mod sensors;
