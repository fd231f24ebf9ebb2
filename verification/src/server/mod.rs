//! The API server: tenancy rules, query planning, auth and request metrics.

pub mod tenancy;
pub mod api;
pub mod config;
pub mod syncer;
