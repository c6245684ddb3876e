//! Datagram transport state machine.
//!
//! The sink owns a connection state per destination: it resolves the host,
//! caches the first resolved address, and on resolution failure backs off
//! exponentially before resolving again. Sending is attempted only from the
//! resolved state; a failed send is reported and dropped, never retried and
//! never fatal. While resolving or backing off the sink reports not-ready,
//! so pending events queue upstream instead of being discarded.
//!
//! The driving loop — the DNS lookup, the timer, the socket itself — hands
//! its outcomes to the transition methods here and performs the actions
//! they decide.

use crate::backoff::Backoff;
use crate::endpoint::{parse_uri, uri_host_of, uri_parse_ok, uri_port_of};
use vstd::prelude::*;
use vstd::string::*;

verus! {

/// A resolved IP address as plain bits: for a v4 address the four octets
/// sit in the low 32 bits.
#[derive(Debug, Clone, Copy, PartialEq, Eq)]
pub struct IpRepr {
    pub is_v6: bool,
    pub bits: u128,
}

/// A resolved peer address.
#[derive(Debug, Clone, Copy, PartialEq, Eq)]
pub struct SocketAddrRepr {
    pub ip: IpRepr,
    pub port: u16,
}

/// Why a UDP sink could not be built.
#[derive(Debug, Clone, PartialEq, Eq)]
pub enum UdpBuildError {
    /// The local datagram socket could not be bound.
    SocketBind,
}

/// Why the configured address is unusable.
#[derive(Debug, Clone, PartialEq, Eq)]
pub enum SinkBuildError {
    MissingHost,
    MissingPort,
    InvalidAddress,
}

/// Configuration of a UDP sink: the destination as `host:port`.
#[derive(Debug, Clone, PartialEq, Eq)]
pub struct UdpSinkConfig {
    pub address: String,
}

/// The connection state of the transport; exactly one is active.
#[derive(Debug, Clone, Copy, PartialEq, Eq)]
pub enum State {
    /// About to start a resolution.
    Initializing,
    /// A resolution is in flight.
    ResolvingDns,
    /// The destination is resolved and cached; sends go to this address.
    ResolvedDns(SocketAddrRepr),
    /// Waiting out the given delay (milliseconds) before resolving again.
    Backoff(u64),
}

/// What a finished DNS lookup yielded.
#[derive(Debug, Clone, PartialEq, Eq)]
pub enum DnsOutcome {
    /// The addresses found, possibly none.
    Resolved(Vec<IpRepr>),
    /// The lookup itself failed.
    Failed,
}

/// The decision for one frame: send it to the cached address, or signal
/// backpressure.
#[derive(Debug, Clone, Copy, PartialEq, Eq)]
pub enum SendDecision {
    Send(SocketAddrRepr),
    NotReady,
}

/// The backoff generator every sink starts from: first delay half a second,
/// doubling per failure, capped at one minute.
pub open spec fn fresh_backoff_spec() -> Backoff {
    Backoff { current: 2, base: 2, factor: 250, max_delay_ms: 60000 }
}

/// What taking a resolution outcome does to the state machine: at least
/// one address resolves the sink to the first of them and resets the
/// backoff generator; no address and a failed lookup alike enter `Backoff`
/// with the generator's next delay.
pub open spec fn dns_step_spec(pre: UdpSink, outcome: DnsOutcome, post: UdpSink) -> bool {
    match outcome {
        DnsOutcome::Resolved(addrs) => if addrs@.len() > 0 {
            post.state == State::ResolvedDns(SocketAddrRepr { ip: addrs@[0], port: pre.port })
                && post.backoff == fresh_backoff_spec()
        } else {
            post.state == State::Backoff(pre.backoff.delay_spec()) && post.backoff
                == pre.backoff.advanced_spec()
        },
        DnsOutcome::Failed => post.state == State::Backoff(pre.backoff.delay_spec())
            && post.backoff == pre.backoff.advanced_spec(),
    }
}

/// A UDP sink's connection state machine for one destination.
#[derive(Debug, Clone, PartialEq, Eq)]
pub struct UdpSink {
    pub host: String,
    pub port: u16,
    pub state: State,
    pub backoff: Backoff,
}

impl UdpSinkConfig {
    pub fn new(address: String) -> (r: UdpSinkConfig)
        ensures
            r.address@ == address@,
    {
        UdpSinkConfig { address }
    }

    /// Parses the address into host and port and builds the sink's state
    /// machine. Binding the local socket is the driving loop's part; a bind
    /// failure is its [`UdpBuildError::SocketBind`].
    pub fn build(&self) -> (r: Result<UdpSink, SinkBuildError>)
        ensures
            !uri_parse_ok(self.address@) <==> r == Err::<UdpSink, _>(SinkBuildError::InvalidAddress),
            uri_parse_ok(self.address@) ==> (uri_host_of(self.address@) is None <==> r == Err::<
                UdpSink,
                _,
            >(SinkBuildError::MissingHost)),
            uri_parse_ok(self.address@) && uri_host_of(self.address@) is Some ==> (uri_port_of(
                self.address@,
            ) is None <==> r == Err::<UdpSink, _>(SinkBuildError::MissingPort)),
            uri_parse_ok(self.address@) && uri_host_of(self.address@) is Some && uri_port_of(
                self.address@,
            ) is Some ==> (r matches Ok(s) && {
                &&& Some(s.host@) == uri_host_of(self.address@)
                &&& Some(s.port) == uri_port_of(self.address@)
                &&& s.state is Initializing
                &&& s.backoff == fresh_backoff_spec()
                &&& s.wf()
            }),
    {
        let parsed = match parse_uri(self.address.as_str()) {
            Some(p) => p.0,
            None => {
                return Err(SinkBuildError::InvalidAddress);
            },
        };
        let host = match parsed.host {
            Some(h) => h,
            None => {
                return Err(SinkBuildError::MissingHost);
            },
        };
        let port = match parsed.port {
            Some(p) => p,
            None => {
                return Err(SinkBuildError::MissingPort);
            },
        };
        Ok(UdpSink::new(host, port))
    }
}

impl UdpSink {
    /// The sink's own invariant: its backoff generator is well formed.
    pub open spec fn wf(&self) -> bool {
        self.backoff.wf()
    }

    /// A sink that has not resolved anything yet.
    pub fn new(host: String, port: u16) -> (r: UdpSink)
        ensures
            r.host@ == host@,
            r.port == port,
            r.state is Initializing,
            r.backoff == fresh_backoff_spec(),
            r.wf(),
    {
        UdpSink { host, port, state: State::Initializing, backoff: Self::fresh_backoff() }
    }

    /// A fresh backoff generator at its initial position.
    pub fn fresh_backoff() -> (r: Backoff)
        ensures
            r == fresh_backoff_spec(),
            r.wf(),
    {
        Backoff::new(2, 250, 60000)
    }

    /// Draws the next backoff delay in milliseconds.
    pub fn next_delay(&mut self) -> (delay: u64)
        requires
            old(self).wf(),
        ensures
            final(self).wf(),
            delay == old(self).backoff.delay_spec(),
            final(self).backoff == old(self).backoff.advanced_spec(),
            final(self).host == old(self).host,
            final(self).port == old(self).port,
            final(self).state == old(self).state,
    {
        self.backoff.next_delay()
    }

    /// Starts a resolution: the one transition out of `Initializing`.
    pub fn begin_resolving(&mut self)
        requires
            old(self).state is Initializing,
            old(self).wf(),
        ensures
            final(self).wf(),
            final(self).state is ResolvingDns,
            final(self).host == old(self).host,
            final(self).port == old(self).port,
            final(self).backoff == old(self).backoff,
    {
        self.state = State::ResolvingDns;
    }

    /// Takes the outcome of the resolution in flight.
    ///
    /// At least one address: the first is cached, deterministically, and
    /// the backoff generator is reset to its initial delay — a sink that
    /// recovered should not keep a stale elevated backoff for the next,
    /// unrelated failure. No address, or a failed lookup: both alike enter
    /// `Backoff` with the generator's next delay.
    pub fn dns_completed(&mut self, outcome: DnsOutcome)
        requires
            old(self).state is ResolvingDns,
            old(self).wf(),
        ensures
            final(self).wf(),
            final(self).host == old(self).host,
            final(self).port == old(self).port,
            dns_step_spec(*old(self), outcome, *final(self)),
    {
        match outcome {
            DnsOutcome::Resolved(addrs) => {
                if addrs.len() > 0 {
                    let addr = SocketAddrRepr { ip: addrs[0], port: self.port };
                    self.state = State::ResolvedDns(addr);
                    self.backoff = Self::fresh_backoff();
                } else {
                    let delay = self.backoff.next_delay();
                    self.state = State::Backoff(delay);
                }
            },
            DnsOutcome::Failed => {
                let delay = self.backoff.next_delay();
                self.state = State::Backoff(delay);
            },
        }
    }

    /// The backoff delay has elapsed; a fresh resolution attempt is due.
    pub fn backoff_elapsed(&mut self)
        requires
            old(self).state is Backoff,
            old(self).wf(),
        ensures
            final(self).wf(),
            final(self).state is Initializing,
            final(self).host == old(self).host,
            final(self).port == old(self).port,
            final(self).backoff == old(self).backoff,
    {
        self.state = State::Initializing;
    }

    /// Whether a send can be attempted right now: only from `ResolvedDns`.
    /// While resolving or backing off the sink is not ready, and pending
    /// events must queue upstream.
    pub fn poll_ready(&self) -> (r: bool)
        ensures
            r == (self.state is ResolvedDns),
    {
        match self.state {
            State::ResolvedDns(_) => true,
            _ => false,
        }
    }

    /// The decision for one outgoing frame: the cached address when
    /// resolved, backpressure otherwise. The state itself never changes on
    /// a send.
    pub fn start_send(&self) -> (r: SendDecision)
        ensures
            self.state matches State::ResolvedDns(a) ==> r == SendDecision::Send(a),
            !(self.state is ResolvedDns) ==> r == SendDecision::NotReady,
    {
        match self.state {
            State::ResolvedDns(addr) => SendDecision::Send(addr),
            _ => SendDecision::NotReady,
        }
    }

    /// A failed send is reported to the observability side channel and the
    /// packet dropped; it changes no transport state and is never retried.
    pub fn send_failed(&mut self)
        ensures
            *final(self) == *old(self),
    {
    }
}

/// Successive resolution failures back off with non-decreasing delays that
/// never exceed the configured cap.
pub proof fn lemma_failure_delays_monotone_capped(s: UdpSink)
    requires
        s.wf(),
    ensures
        s.backoff.delay_spec() <= s.backoff.max_delay_ms,
        s.backoff.advanced_spec().delay_spec() >= s.backoff.delay_spec(),
{
    crate::backoff::lemma_backoff_monotone_capped(s.backoff);
}

/// The startup healthcheck of a datagram sink: with no way to probe a
/// datagram destination without sending data, it succeeds by definition.
pub fn udp_healthcheck() -> (r: Result<(), SinkBuildError>)
    ensures
        r is Ok,
{
    Ok(())
}

} // verus!
