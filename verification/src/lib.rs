//! Delivery layer of a telemetry pipeline: endpoint normalization, a StatsD
//! line-protocol encoder, size/count/time-bounded batch aggregation, and a
//! datagram transport state machine with exponential backoff on DNS failure.

pub mod backoff;
pub mod batch;
pub mod endpoint;
pub mod internal_events;
pub mod strcmp;
pub mod numfmt;
pub mod statsd;
pub mod tags;
pub mod udp;
