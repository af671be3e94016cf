//! Streaming migration pipeline: pages flow from a source, are re-encoded by a
//! transform, framed by a composer and handed to a sink.

pub mod app_config;
pub mod backends;
pub mod collectors;
pub mod common;
pub mod composers;
pub mod diagnostics;
pub mod json;
pub mod progress;
pub mod supervisors;
pub mod text;
pub mod transforms;
