//! Core of a photo editor with live previews.
//!
//! The heart is [`scheduler`]: a preview job scheduler that keeps only the newest render
//! request, discards superseded work at every step, and delivers only the freshest frame,
//! with counters and a latency window in [`metrics`]. Around it sit the render-size cap
//! ([`sizing`]), pixel packing and resampling ([`pixels`]), the domain values, the
//! application service over its collaborator traits, and small presentation helpers.

pub mod controls;
pub mod domain;
pub mod error;
pub mod metrics;
pub mod paths;
pub mod pixels;
pub mod presenters;
pub mod scheduler;
pub mod service;
pub mod sizing;
pub mod text;
