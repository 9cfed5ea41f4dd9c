//! Gitlab access tokens as prometheus metrics.

pub mod date;
pub mod gitlab;
pub mod prometheus_metrics;
pub mod text;
