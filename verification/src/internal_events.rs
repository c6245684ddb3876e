//! Observability side-channel events.
//!
//! The core reports what happened — bytes received, sends failed, requests
//! completed — as plain event values. Emitting them into the process-wide
//! metrics and logging layer is the surrounding program's part; errors and
//! instants are carried here as text and nanosecond readings.

use vstd::prelude::*;

verus! {

/// A scrape yielded events.
#[derive(Debug, Clone, PartialEq, Eq)]
pub struct PrometheusEventReceived {
    pub byte_size: usize,
    pub count: usize,
}

/// A scrape request finished; the timing metric reports its duration.
#[derive(Debug, Clone, PartialEq, Eq)]
pub struct PrometheusRequestCompleted {
    pub start_ns: u64,
    pub end_ns: u64,
}

impl PrometheusRequestCompleted {
    /// The duration the timing metric reports.
    pub fn duration_ns(&self) -> (r: u64)
        requires
            self.start_ns <= self.end_ns,
        ensures
            r == self.end_ns - self.start_ns,
    {
        self.end_ns - self.start_ns
    }
}

/// A scrape response could not be parsed.
#[derive(Debug, Clone, PartialEq, Eq)]
pub struct PrometheusParseError {
    pub error: String,
    pub url: String,
    pub body: String,
}

/// A scrape answered with an error status.
#[derive(Debug, Clone, PartialEq, Eq)]
pub struct PrometheusErrorResponse {
    pub code: u16,
    pub url: String,
}

/// A scrape request failed at the transport.
#[derive(Debug, Clone, PartialEq, Eq)]
pub struct PrometheusHttpError {
    pub error: String,
    pub url: String,
}

/// One datagram's worth of event bytes arrived.
#[derive(Debug, Clone, PartialEq, Eq)]
pub struct UdpEventReceived {
    pub byte_size: usize,
}

/// Sending a datagram failed; the packet is dropped, not retried.
#[derive(Debug, Clone, PartialEq, Eq)]
pub struct UdpSendFailed {
    pub error: String,
}

/// Reading a datagram failed.
#[derive(Debug, Clone, PartialEq, Eq)]
pub struct UdpReadFailed {
    pub error: String,
}

} // verus!
