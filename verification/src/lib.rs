//! Network-path observability: enumerate the host's network interfaces,
//! classify which of them are usable (up, non-loopback, internet-reachable),
//! and compute the metrics of an active link performance test.
//!
//! Interface enumeration is read from the operating system through a trusted
//! wrapper; everything downstream of it — classification, the reachability
//! verdict, throughput arithmetic, the degrade-to-zero aggregation policy, and
//! the wire codec for interface records — is verified.

pub mod classify;
pub mod codec;
pub mod errors;
pub mod models;
pub mod network;
pub mod probe;
pub mod speed;
