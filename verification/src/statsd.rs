//! StatsD line-protocol encoding of metric events.
//!
//! One metric becomes one newline-terminated message of `|`-separated
//! segments: `name:value|type`, then `@rate` for sampled distribution
//! values, then `#tag,tag,...`. Numeric metric values are carried as their
//! decimal rendering, so the encoder itself is exact on every input.

use crate::backoff::sat_mul;
use crate::batch::{closes_batch, Batch, BatchConfig};
use crate::endpoint::{uri_host_of, uri_parse_ok, uri_port_of};
use crate::numfmt::{inv_rate_chars, inv_rate_text};
use crate::strcmp::str_eq;
use crate::tags::{StrSet, TagMap};
use crate::udp::{fresh_backoff_spec, IpRepr, SocketAddrRepr, UdpSink, UdpSinkConfig};
use vstd::prelude::*;
use vstd::string::*;
use vstd::utf8::encode_utf8;

verus! {

/// Which aggregate a distribution is reported as.
#[derive(Debug, Clone, Copy, PartialEq, Eq)]
pub enum StatisticKind {
    Histogram,
    Summary,
}

/// Whether a value is a delta to merge (Incremental) or a snapshot
/// (Absolute).
#[derive(Debug, Clone, Copy, PartialEq, Eq)]
pub enum MetricKind {
    Incremental,
    Absolute,
}

/// The payload of a metric event. Numeric values are carried as their
/// decimal text, exactly as they go on the wire.
#[derive(Debug, Clone, PartialEq)]
pub enum MetricValue {
    Counter { value: String },
    Gauge { value: String },
    Distribution { values: Vec<String>, sample_rates: Vec<u32>, statistic: StatisticKind },
    SetValue { values: StrSet },
}

/// One metric event, consumed once by the encoder.
#[derive(Debug, Clone, PartialEq)]
pub struct Metric {
    pub name: String,
    pub tags: Option<TagMap>,
    pub kind: MetricKind,
    pub value: MetricValue,
}

/// One rendered tag: `name` alone when the value is the literal `true`,
/// else `name:value`.
pub open spec fn push_tag_spec(name: Seq<char>, value: Seq<char>) -> Seq<char> {
    if value == "true"@ {
        name
    } else {
        name + ":"@ + value
    }
}

/// All tags rendered in entry order, joined with commas.
pub open spec fn encode_tags_spec(entries: Seq<(Seq<char>, Seq<char>)>) -> Seq<char>
    decreases entries.len(),
{
    if entries.len() == 0 {
        Seq::empty()
    } else if entries.len() == 1 {
        push_tag_spec(entries[0].0, entries[0].1)
    } else {
        encode_tags_spec(entries.drop_last()) + ","@ + push_tag_spec(
            entries.last().0,
            entries.last().1,
        )
    }
}

/// The trailing tag segment; zero tags emit no segment at all, never an
/// empty `#`.
pub open spec fn tag_segments(tags: Option<TagMap>) -> Seq<Seq<char>> {
    match tags {
        Some(t) => if t@.len() == 0 {
            seq![]
        } else {
            seq!["#"@ + encode_tags_spec(t@)]
        },
        None => seq![],
    }
}

/// A gauge delta always shows its sign.
pub open spec fn signed_value(v: Seq<char>) -> Seq<char> {
    if v.len() > 0 && v[0] == '-' {
        v
    } else {
        "+"@ + v
    }
}

pub open spec fn statistic_code(s: StatisticKind) -> Seq<char> {
    match s {
        StatisticKind::Histogram => "h"@,
        StatisticKind::Summary => "d"@,
    }
}

/// The `@rate` segment, present only for a real sampling rate; a rate of 0
/// is invalid and is treated as 1.
pub open spec fn rate_segments(rate: u32) -> Seq<Seq<char>> {
    if rate != 1 && rate != 0 {
        seq!["@"@ + inv_rate_chars(rate)]
    } else {
        seq![]
    }
}

pub open spec fn value_segment(name: Seq<char>, value: Seq<char>) -> Seq<char> {
    name + ":"@ + value
}

/// The segments of the first `n` value/rate pairs of a distribution.
pub open spec fn dist_segments(
    name: Seq<char>,
    values: Seq<Seq<char>>,
    rates: Seq<u32>,
    code: Seq<char>,
    tags: Option<TagMap>,
    n: int,
) -> Seq<Seq<char>>
    decreases n,
{
    if n <= 0 {
        seq![]
    } else {
        dist_segments(name, values, rates, code, tags, n - 1) + seq![
            value_segment(name, values[n - 1]),
            code,
        ] + rate_segments(rates[n - 1]) + tag_segments(tags)
    }
}

/// The segments of the first `n` members of a set.
pub open spec fn set_segments(
    name: Seq<char>,
    items: Seq<Seq<char>>,
    tags: Option<TagMap>,
    n: int,
) -> Seq<Seq<char>>
    decreases n,
{
    if n <= 0 {
        seq![]
    } else {
        set_segments(name, items, tags, n - 1) + seq![value_segment(name, items[n - 1]), "s"@]
            + tag_segments(tags)
    }
}

pub open spec fn min_len(a: int, b: int) -> int {
    if a < b {
        a
    } else {
        b
    }
}

/// Every segment a metric emits, in order.
pub open spec fn segments_spec(m: Metric) -> Seq<Seq<char>> {
    match m.kind {
        MetricKind::Incremental => match m.value {
            MetricValue::Counter { value } => seq![value_segment(m.name@, value@), "c"@]
                + tag_segments(m.tags),
            MetricValue::Gauge { value } => seq![
                value_segment(m.name@, signed_value(value@)),
                "g"@,
            ] + tag_segments(m.tags),
            MetricValue::Distribution { values, sample_rates, statistic } => dist_segments(
                m.name@,
                values.deep_view(),
                sample_rates@,
                statistic_code(statistic),
                m.tags,
                min_len(values@.len() as int, sample_rates@.len() as int),
            ),
            MetricValue::SetValue { values } => set_segments(
                m.name@,
                values@,
                m.tags,
                values@.len() as int,
            ),
        },
        MetricKind::Absolute => match m.value {
            MetricValue::Gauge { value } => seq![value_segment(m.name@, value@), "g"@]
                + tag_segments(m.tags),
            _ => seq![],
        },
    }
}

/// An absolute metric is encodable only as a gauge; everything else
/// produces no wire output at all (not an error).
pub open spec fn supported_spec(m: Metric) -> bool {
    m.kind == MetricKind::Incremental || m.value is Gauge
}

/// Segments joined with `|`.
pub open spec fn join_segments(segs: Seq<Seq<char>>) -> Seq<char>
    decreases segs.len(),
{
    if segs.len() == 0 {
        Seq::empty()
    } else if segs.len() == 1 {
        segs[0]
    } else {
        join_segments(segs.drop_last()) + "|"@ + segs.last()
    }
}

/// The full message text: the joined segments, prefixed `namespace.` when a
/// namespace is configured.
pub open spec fn message_spec(m: Metric, ns: Seq<char>) -> Seq<char> {
    if ns.len() > 0 {
        ns + "."@ + join_segments(segments_spec(m))
    } else {
        join_segments(segments_spec(m))
    }
}

/// The wire bytes of one metric: the UTF-8 of its message terminated by one
/// newline byte, or nothing at all for an unsupported combination.
pub open spec fn encode_event_spec(m: Metric, ns: Seq<char>) -> Seq<u8> {
    if supported_spec(m) {
        encode_utf8(message_spec(m, ns)) + seq![10u8]
    } else {
        Seq::empty()
    }
}

/// Appends one rendered tag to `result`.
pub fn push_tag(result: &mut String, name: &str, value: &str)
    ensures
        final(result)@ == old(result)@ + push_tag_spec(name@, value@),
{
    result.append(name);
    if !str_eq(value, "true") {
        result.append(":");
        result.append(value);
    }
    proof {
        assert(result@ =~= old(result)@ + push_tag_spec(name@, value@));
    }
}

/// Renders a tag mapping as `k:v,k,k:v` in its entry order.
pub fn encode_tags(tags: &TagMap) -> (r: String)
    ensures
        r@ == encode_tags_spec(tags@),
{
    let mut result = String::new();
    let n = tags.entries.len();
    let mut i: usize = 0;
    while i < n
        invariant
            n == tags@.len(),
            0 <= i <= n,
            result@ == encode_tags_spec(tags@.subrange(0, i as int)),
        decreases n - i,
    {
        if i > 0 {
            result.append(",");
        }
        push_tag(&mut result, tags.entries[i].0.as_str(), tags.entries[i].1.as_str());
        proof {
            let sub1 = tags@.subrange(0, i + 1);
            assert(sub1.drop_last() =~= tags@.subrange(0, i as int));
            assert(sub1.last() == tags@[i as int]);
            assert(tags@[i as int] == (tags.entries@[i as int].0@, tags.entries@[i as int].1@));
            assert(result@ =~= encode_tags_spec(sub1));
        }
        i = i + 1;
    }
    proof {
        assert(tags@.subrange(0, n as int) =~= tags@);
    }
    result
}

/// `name:value`.
fn value_segment_text(name: &str, value: &str) -> (r: String)
    ensures
        r@ == value_segment(name@, value@),
{
    let mut s = String::from_str(name);
    s.append(":");
    s.append(value);
    proof {
        assert(s@ =~= value_segment(name@, value@));
    }
    s
}

/// The always-signed rendering of a gauge delta.
fn signed_text(v: &str) -> (r: String)
    ensures
        r@ == signed_value(v@),
{
    if v.unicode_len() > 0 && v.get_char(0) == '-' {
        String::from_str(v)
    } else {
        let mut s = String::from_str("+");
        s.append(v);
        s
    }
}

/// Appends the tag segment, if the metric has a tag mapping at all.
fn push_tag_segment(buf: &mut Vec<String>, tags: &Option<TagMap>)
    ensures
        final(buf).deep_view() == old(buf).deep_view() + tag_segments(*tags),
{
    match tags {
        Some(t) => {
            if t.len() > 0 {
                let mut s = String::from_str("#");
                s.append(encode_tags(t).as_str());
                buf.push(s);
                proof {
                    assert(buf.deep_view() =~= old(buf).deep_view() + tag_segments(*tags));
                }
            } else {
                proof {
                    assert(buf.deep_view() =~= old(buf).deep_view() + tag_segments(*tags));
                }
            }
        },
        None => {
            proof {
                assert(buf.deep_view() =~= old(buf).deep_view() + tag_segments(*tags));
            }
        },
    }
}

/// Encodes one metric event into its wire bytes, with `namespace.` prefixed
/// to the message when the namespace is non-empty.
pub fn encode_event(event: Metric, namespace: &str) -> (r: Vec<u8>)
    ensures
        r@ == encode_event_spec(event, namespace@),
{
    let mut buf: Vec<String> = Vec::new();
    proof {
        assert(buf.deep_view() =~= Seq::<Seq<char>>::empty());
    }
    match (&event.kind, &event.value) {
        (MetricKind::Incremental, MetricValue::Counter { value }) => {
            buf.push(value_segment_text(event.name.as_str(), value.as_str()));
            buf.push(String::from_str("c"));
            push_tag_segment(&mut buf, &event.tags);
            proof {
                assert(buf.deep_view() =~= segments_spec(event));
            }
        },
        (MetricKind::Incremental, MetricValue::Gauge { value }) => {
            let sv = signed_text(value.as_str());
            buf.push(value_segment_text(event.name.as_str(), sv.as_str()));
            buf.push(String::from_str("g"));
            push_tag_segment(&mut buf, &event.tags);
            proof {
                assert(buf.deep_view() =~= segments_spec(event));
            }
        },
        (MetricKind::Incremental, MetricValue::Distribution { values, sample_rates, statistic }) => {
            let code: &str = match statistic {
                StatisticKind::Histogram => "h",
                StatisticKind::Summary => "d",
            };
            proof {
                assert(code@ == statistic_code(*statistic));
            }
            let n = if values.len() < sample_rates.len() {
                values.len()
            } else {
                sample_rates.len()
            };
            let mut i: usize = 0;
            while i < n
                invariant
                    n == min_len(values@.len() as int, sample_rates@.len() as int),
                    n <= values@.len(),
                    n <= sample_rates@.len(),
                    0 <= i <= n,
                    code@ == statistic_code(*statistic),
                    buf.deep_view() == dist_segments(
                        event.name@,
                        values.deep_view(),
                        sample_rates@,
                        code@,
                        event.tags,
                        i as int,
                    ),
                decreases n - i,
            {
                buf.push(value_segment_text(event.name.as_str(), values[i].as_str()));
                buf.push(String::from_str(code));
                let rate = sample_rates[i];
                if rate != 1 && rate != 0 {
                    let mut rs = String::from_str("@");
                    rs.append(inv_rate_text(rate).as_str());
                    buf.push(rs);
                }
                push_tag_segment(&mut buf, &event.tags);
                proof {
                    assert(values[i as int].deep_view() == values.deep_view()[i as int]);
                    assert(buf.deep_view() =~= dist_segments(
                        event.name@,
                        values.deep_view(),
                        sample_rates@,
                        code@,
                        event.tags,
                        i + 1,
                    ));
                }
                i = i + 1;
            }
            proof {
                assert(buf.deep_view() == segments_spec(event));
            }
        },
        (MetricKind::Incremental, MetricValue::SetValue { values }) => {
            let n = values.len();
            let mut i: usize = 0;
            while i < n
                invariant
                    n == values@.len(),
                    0 <= i <= n,
                    buf.deep_view() == set_segments(event.name@, values@, event.tags, i as int),
                decreases n - i,
            {
                buf.push(value_segment_text(event.name.as_str(), values.get(i).as_str()));
                buf.push(String::from_str("s"));
                push_tag_segment(&mut buf, &event.tags);
                proof {
                    assert(buf.deep_view() =~= set_segments(
                        event.name@,
                        values@,
                        event.tags,
                        i + 1,
                    ));
                }
                i = i + 1;
            }
            proof {
                assert(buf.deep_view() == segments_spec(event));
            }
        },
        (MetricKind::Absolute, MetricValue::Gauge { value }) => {
            buf.push(value_segment_text(event.name.as_str(), value.as_str()));
            buf.push(String::from_str("g"));
            push_tag_segment(&mut buf, &event.tags);
            proof {
                assert(buf.deep_view() =~= segments_spec(event));
            }
        },
        (MetricKind::Absolute, _) => {
            proof {
                assert(!supported_spec(event));
            }
            let empty: Vec<u8> = Vec::new();
            proof {
                assert(empty@ =~= encode_event_spec(event, namespace@));
            }
            return empty;
        },
    }
    let ghost segs = buf.deep_view();
    proof {
        assert(segs == segments_spec(event));
        assert(supported_spec(event));
    }
    let mut message = String::new();
    let nb = buf.len();
    let mut i: usize = 0;
    while i < nb
        invariant
            nb == buf@.len(),
            0 <= i <= nb,
            segs == buf.deep_view(),
            message@ == join_segments(segs.subrange(0, i as int)),
        decreases nb - i,
    {
        if i > 0 {
            message.append("|");
        }
        message.append(buf[i].as_str());
        proof {
            let sub1 = segs.subrange(0, i + 1);
            assert(sub1.drop_last() =~= segs.subrange(0, i as int));
            assert(sub1.last() == segs[i as int]);
            assert(segs[i as int] == buf@[i as int]@);
            assert(message@ =~= join_segments(sub1));
        }
        i = i + 1;
    }
    proof {
        assert(segs.subrange(0, nb as int) =~= segs);
    }
    let body_str = if !namespace.is_empty() {
        let mut m2 = String::from_str(namespace);
        m2.append(".");
        m2.append(message.as_str());
        m2
    } else {
        message
    };
    proof {
        assert(body_str@ =~= message_spec(event, namespace@));
    }
    let mut body = body_str.as_str().as_bytes_vec();
    body.push(10u8);
    proof {
        assert(body@ =~= encode_event_spec(event, namespace@));
    }
    body
}

/// Errors of the statsd sink.
#[derive(Debug, Clone, PartialEq, Eq)]
pub enum StatsdError {
    SendError,
    BuildError,
}

/// Which transport carries the encoded batches. Only the datagram
/// transport, with its resolution state machine, is modeled here.
#[derive(Debug, Clone, PartialEq, Eq)]
pub enum Mode {
    Udp(UdpSinkConfig),
}

/// Configuration of the statsd sink.
#[derive(Debug, Clone, PartialEq, Eq)]
pub struct StatsdSinkConfig {
    pub namespace: String,
    pub batch: BatchConfig,
    pub mode: Mode,
}

/// The per-frame delivery service of the sink; building and driving the
/// transport for a frame is the driving loop's part.
#[derive(Debug, Clone, PartialEq, Eq)]
pub struct StatsdSvc {
    pub mode: Mode,
}

impl StatsdSvc {
    /// The service itself accepts every frame; backpressure comes from the
    /// transport state machine.
    pub fn poll_ready(&self) -> (r: bool)
        ensures
            r,
    {
        true
    }
}

/// The address a statsd sink points at by default: local loopback, port
/// 8125.
pub fn default_address() -> (r: SocketAddrRepr)
    ensures
        r == (SocketAddrRepr { ip: IpRepr { is_v6: false, bits: 0x7F000001 }, port: 8125 }),
{
    SocketAddrRepr { ip: IpRepr { is_v6: false, bits: 0x7F000001 }, port: 8125 }
}

/// The byte bound of a batch: the default fits a common network MTU with
/// headroom for one more event.
pub open spec fn bytes_bound_spec(c: BatchConfig) -> usize {
    match c.max_bytes {
        Some(b) => b,
        None => 1300,
    }
}

pub open spec fn events_bound_spec(c: BatchConfig) -> usize {
    match c.max_events {
        Some(e) => e,
        None => 1000,
    }
}

pub open spec fn timeout_ms_spec(c: BatchConfig) -> u64 {
    sat_mul(
        match c.timeout_secs {
            Some(t) => t,
            None => 1,
        },
        1000,
    )
}

/// The configuration can start: the address parses with host and port, and
/// the event bound is usable.
pub open spec fn statsd_config_ok(c: StatsdSinkConfig) -> bool {
    &&& match c.mode {
        Mode::Udp(u) => uri_parse_ok(u.address@) && uri_host_of(u.address@) is Some && uri_port_of(
            u.address@,
        ) is Some,
    }
    &&& events_bound_spec(c.batch) >= 1
}

/// The sink `s` is what building the configuration `c` yields.
pub open spec fn statsd_built_spec(c: StatsdSinkConfig, s: StatsdSink) -> bool {
    &&& s.namespace@ == c.namespace@
    &&& s.batch.events == 0
    &&& s.batch.buf@ == Seq::<u8>::empty()
    &&& s.batch.max_bytes == bytes_bound_spec(c.batch)
    &&& s.batch.max_events == events_bound_spec(c.batch)
    &&& s.batch.timeout_ms == timeout_ms_spec(c.batch)
    &&& match c.mode {
        Mode::Udp(u) => Some(s.transport.host@) == uri_host_of(u.address@) && Some(
            s.transport.port,
        ) == uri_port_of(u.address@),
    }
    &&& s.transport.state is Initializing
    &&& s.transport.backoff == fresh_backoff_spec()
    &&& s.acked_events == 0
    &&& s.wf()
}

impl StatsdSinkConfig {
    /// Builds the composed sink: encoder namespace, batch bounds with their
    /// defaults, and the transport state machine. Any unusable setting is
    /// fatal at startup.
    pub fn build(&self) -> (r: Result<StatsdSink, StatsdError>)
        ensures
            !statsd_config_ok(*self) <==> r == Err::<StatsdSink, _>(StatsdError::BuildError),
            statsd_config_ok(*self) ==> (r matches Ok(s) && statsd_built_spec(*self, s)),
    {
        let transport = match &self.mode {
            Mode::Udp(udp_config) => match udp_config.build() {
                Ok(t) => t,
                Err(_) => {
                    return Err(StatsdError::BuildError);
                },
            },
        };
        let max_bytes = match self.batch.max_bytes {
            Some(b) => b,
            None => 1300,
        };
        let max_events = match self.batch.max_events {
            Some(e) => e,
            None => 1000,
        };
        if max_events == 0 {
            return Err(StatsdError::BuildError);
        }
        let timeout_secs = match self.batch.timeout_secs {
            Some(t) => t,
            None => 1,
        };
        let timeout_ms = match timeout_secs.checked_mul(1000) {
            Some(t) => t,
            None => u64::MAX,
        };
        Ok(
            StatsdSink {
                namespace: self.namespace.clone(),
                batch: Batch::new(max_bytes, max_events, timeout_ms),
                transport,
                acked_events: 0,
            },
        )
    }

    /// The name this sink registers under.
    pub fn sink_type(&self) -> (r: &'static str)
        ensures
            r@ == "statsd"@,
    {
        "statsd"
    }
}

/// What submitting one event yielded.
#[derive(Debug, Clone, PartialEq)]
pub enum SubmitOutcome {
    /// The event was encoded and sits in the open batch.
    Accepted,
    /// Batching closed a batch: these bytes go to this address, and the
    /// closed batch's events count as acknowledged upstream.
    Flush(Vec<u8>, SocketAddrRepr),
    /// The transport is resolving or backing off: the caller keeps the
    /// event and retries later.
    NotReady,
}

pub open spec fn sat_add_u64(a: u64, b: u64) -> u64 {
    if a + b > u64::MAX {
        u64::MAX
    } else {
        (a + b) as u64
    }
}

/// The composed sink: encoder, batch aggregator and transport state
/// machine behind one submit operation, with best-effort acknowledgements
/// counted as batches are handed to the transport.
#[derive(Debug, Clone, PartialEq, Eq)]
pub struct StatsdSink {
    pub namespace: String,
    pub batch: Batch,
    pub transport: UdpSink,
    pub acked_events: u64,
}

/// Accepting an event appends its encoding to the open batch and touches
/// nothing else.
pub open spec fn submit_accept_spec(pre: StatsdSink, event: Metric, post: StatsdSink) -> bool {
    &&& post.batch.buf@ == pre.batch.buf@ + encode_event_spec(event, pre.namespace@)
    &&& post.batch.events == pre.batch.events + 1
    &&& post.transport == pre.transport
    &&& post.acked_events == pre.acked_events
}

/// Closing a batch hands out exactly its bytes, addressed to the cached
/// resolved address, opens a fresh batch with the arriving event, and
/// acknowledges the closed batch's events upstream.
pub open spec fn submit_flush_spec(
    pre: StatsdSink,
    event: Metric,
    post: StatsdSink,
    bytes: Seq<u8>,
    addr: SocketAddrRepr,
) -> bool {
    &&& bytes == pre.batch.buf@
    &&& pre.transport.state == crate::udp::State::ResolvedDns(addr)
    &&& post.batch.buf@ == encode_event_spec(event, pre.namespace@)
    &&& post.batch.events == 1
    &&& post.transport == pre.transport
    &&& post.acked_events == sat_add_u64(pre.acked_events, pre.batch.events as u64)
}

/// The batch's time bound has elapsed.
pub open spec fn timeout_due_spec(b: Batch, now_ms: u64) -> bool {
    b.opened_at_ms matches Some(t) && now_ms >= t + b.timeout_ms
}

/// A time-bound flush hands out the whole open batch and acknowledges it.
pub open spec fn timeout_flush_spec(
    pre: StatsdSink,
    post: StatsdSink,
    bytes: Seq<u8>,
    addr: SocketAddrRepr,
) -> bool {
    &&& bytes == pre.batch.buf@
    &&& pre.transport.state == crate::udp::State::ResolvedDns(addr)
    &&& post.batch.events == 0
    &&& post.batch.buf@ == Seq::<u8>::empty()
    &&& post.transport == pre.transport
    &&& post.acked_events == sat_add_u64(pre.acked_events, pre.batch.events as u64)
}

impl StatsdSink {
    pub open spec fn wf(&self) -> bool {
        self.batch.wf() && self.transport.wf()
    }

    /// Accepts one event: encodes it and appends it to the open batch,
    /// handing a closed batch out for sending.
    ///
    /// While the transport is resolving or backing off nothing is accepted
    /// and nothing changes: the caller must queue the event upstream. An
    /// unsupported metric encodes to nothing and is dropped silently, by
    /// design, without touching the batch.
    pub fn submit(&mut self, event: Metric, now_ms: u64) -> (r: SubmitOutcome)
        requires
            old(self).wf(),
        ensures
            final(self).wf(),
            final(self).namespace == old(self).namespace,
            !(old(self).transport.state is ResolvedDns) ==> r == SubmitOutcome::NotReady
                && *final(self) == *old(self),
            old(self).transport.state is ResolvedDns && !supported_spec(event) ==> r
                == SubmitOutcome::Accepted && *final(self) == *old(self),
            old(self).transport.state is ResolvedDns && supported_spec(event) && !closes_batch(
                old(self).batch,
                encode_event_spec(event, old(self).namespace@),
            ) ==> r == SubmitOutcome::Accepted && submit_accept_spec(*old(self), event, *final(self)),
            old(self).transport.state is ResolvedDns && supported_spec(event) && closes_batch(
                old(self).batch,
                encode_event_spec(event, old(self).namespace@),
            ) ==> (r matches SubmitOutcome::Flush(bytes, addr) && submit_flush_spec(
                *old(self),
                event,
                *final(self),
                bytes@,
                addr,
            )),
    {
        let addr = match self.transport.start_send() {
            crate::udp::SendDecision::Send(a) => a,
            crate::udp::SendDecision::NotReady => {
                return SubmitOutcome::NotReady;
            },
        };
        let encoded = encode_event(event, self.namespace.as_str());
        if encoded.is_empty() {
            return SubmitOutcome::Accepted;
        }
        let closed_events = self.batch.events;
        match self.batch.push(&encoded, now_ms) {
            Some(bytes) => {
                self.acked_events = match self.acked_events.checked_add(closed_events as u64) {
                    Some(a) => a,
                    None => u64::MAX,
                };
                SubmitOutcome::Flush(bytes, addr)
            },
            None => SubmitOutcome::Accepted,
        }
    }

    /// Closes the open batch when its time bound has elapsed and the
    /// transport can take it; its events count as acknowledged.
    pub fn poll_timeout(&mut self, now_ms: u64) -> (r: Option<(Vec<u8>, SocketAddrRepr)>)
        requires
            old(self).wf(),
        ensures
            final(self).wf(),
            !(old(self).transport.state is ResolvedDns) ==> r is None && *final(self) == *old(self),
            old(self).transport.state is ResolvedDns && !timeout_due_spec(old(self).batch, now_ms)
                ==> r is None && *final(self) == *old(self),
            old(self).transport.state is ResolvedDns && timeout_due_spec(old(self).batch, now_ms)
                ==> (r matches Some(out) && timeout_flush_spec(
                *old(self),
                *final(self),
                out.0@,
                out.1,
            )),
    {
        let addr = match self.transport.start_send() {
            crate::udp::SendDecision::Send(a) => a,
            crate::udp::SendDecision::NotReady => {
                return None;
            },
        };
        if !self.batch.flush_due(now_ms) {
            return None;
        }
        let closed_events = self.batch.events;
        match self.batch.flush() {
            Some(bytes) => {
                self.acked_events = match self.acked_events.checked_add(closed_events as u64) {
                    Some(a) => a,
                    None => u64::MAX,
                };
                Some((bytes, addr))
            },
            None => None,
        }
    }
}

} // verus!
