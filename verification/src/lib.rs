//! A pod-lifetime reconciler library.
//!
//! A control loop periodically scans a cluster's running workloads, decides
//! which ones have exceeded an allowed lifetime, and deletes the expired ones
//! so that a higher-level controller can recreate them. Two strategies find
//! expiry candidates: a per-pod lifetime label, and cluster-scoped policy
//! resources that select pods by label matching. This crate holds the
//! decision logic; the cluster client, logging sinks and the loop itself live
//! outside it and exchange plain values with it.

pub mod clock;
pub mod labels;
pub mod model;
pub mod parse;
pub mod pll;
pub mod policy;
pub mod reconciler;
