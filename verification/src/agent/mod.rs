//! The node agent: reads usage from cgroups and `/proc`, metadata from the
//! kubelet, and batches rows for the warehouse.

pub mod cgroup;
pub mod node;
pub mod kubelet;
pub mod sink;
pub mod metrics;
pub mod config;
pub mod collector;
pub mod model;
