//! Core logic of a usage monitor for the Codex command-line tool: reading
//! session logs and rate-limit replies, aggregating token usage into
//! day/week/month buckets, and deciding when to notify.
pub mod json;
pub mod text;
pub mod thresholds;
pub mod date;
pub mod session;
pub mod index;
pub mod usage;
pub mod official;
pub mod state;
pub mod tray;

pub use text::dedupe_key;
pub use thresholds::threshold_crossings;
