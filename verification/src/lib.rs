//! Verified core of a native data-plane: the metrics ring watcher, the
//! database page scraper, and the disk telemetry engine.

pub mod counter;
pub mod metrics;
pub mod scraper;
pub mod telemetry;
pub mod text;
pub mod response;
pub mod routing;
