//! Request-identity resolution and health-condition aggregation.
//!
//! The `authn` module resolves the identity behind an inbound request from a
//! transport-layer client certificate or, as a configured fallback, from
//! trusted request headers. The `health` module keeps a shared registry of
//! named boolean conditions and aggregates them into a snapshot. The `error`
//! module carries structured errors toward a response-formatting host.

pub mod authn;
pub mod error;
pub mod health;
pub mod kv;
