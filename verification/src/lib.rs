//! A machine-health alerting library: threshold alert rules evaluated against
//! metric snapshots with per-rule cooldown, bounded time-ordered stores for
//! alert history and metric samples, a peer-discovery registry with
//! heartbeat-based liveness, and notification fan-out planning.
//!
//! Metric values are carried as fixed-point integers (see [`fixed`]) so that
//! every comparison and every rendered message is exact.

pub mod alerts_store;
pub mod bounded;
pub mod clock;
pub mod engine;
pub mod fixed;
pub mod ident;
pub mod json;
pub mod metrics_store;
pub mod node;
pub mod notifier;
pub mod numfmt;
pub mod registry;
pub mod rules;
pub mod sensors;
pub mod snapshot;
pub mod text;
