//! The server's Prometheus metrics.
//!
//! Every event that is counted yields a [`MetricUpdate`]; whoever owns the
//! recorder applies it under the metric's name.
use vstd::prelude::*;

verus! {

/// The metrics that the server exports.
#[derive(Clone, Copy, Debug, PartialEq, Eq, Structural)]
pub enum Metric {
    /// Raw frames dropped due to encoder backpressure.
    EncoderDrops,
    /// H.264 frames successfully encoded.
    FramesEncoded,
    /// Currently connected peer connections (gauge).
    PeersActive,
    /// Cumulative frames skipped by slow clients.
    PeerLagFrames,
}

/// What an event does to its metric.
#[derive(Clone, Copy, Debug, PartialEq, Eq, Structural)]
pub enum Change {
    /// A counter grows by this much.
    CountBy(u64),
    /// A gauge rises by one.
    Rise,
    /// A gauge falls by one.
    Fall,
}

/// One change of one metric.
#[derive(Clone, Copy, Debug, PartialEq, Eq, Structural)]
pub struct MetricUpdate {
    pub metric: Metric,
    pub change: Change,
}

/// The name under which a metric is exported.
pub open spec fn metric_name(metric: Metric) -> Seq<char> {
    match metric {
        Metric::EncoderDrops => "stream_encoder_drops_total"@,
        Metric::FramesEncoded => "stream_frames_encoded_total"@,
        Metric::PeersActive => "stream_peers_active"@,
        Metric::PeerLagFrames => "stream_peer_lag_frames_total"@,
    }
}

/// By how much a change moves its metric.
pub open spec fn change_amount(change: Change) -> int {
    match change {
        Change::CountBy(n) => n as int,
        Change::Rise => 1,
        Change::Fall => -1,
    }
}

/// What a metric shows after these updates.
pub open spec fn metric_total(updates: Seq<MetricUpdate>, metric: Metric) -> int
    decreases updates.len(),
{
    if updates.len() == 0 {
        0
    } else {
        metric_total(updates.drop_last(), metric) + (if updates.last().metric == metric {
            change_amount(updates.last().change)
        } else {
            0
        })
    }
}

impl Metric {
    /// The name under which the metric is exported.
    pub fn name(self) -> (name: &'static str)
        ensures
            name@ == metric_name(self),
            self is EncoderDrops ==> name@ == "stream_encoder_drops_total"@,
            self is FramesEncoded ==> name@ == "stream_frames_encoded_total"@,
            self is PeersActive ==> name@ == "stream_peers_active"@,
            self is PeerLagFrames ==> name@ == "stream_peer_lag_frames_total"@,
    {
        match self {
            Metric::EncoderDrops => "stream_encoder_drops_total",
            Metric::FramesEncoded => "stream_frames_encoded_total",
            Metric::PeersActive => "stream_peers_active",
            Metric::PeerLagFrames => "stream_peer_lag_frames_total",
        }
    }
}

/// A raw frame was dropped because the encoder was behind.
pub fn record_encoder_drop() -> (update: MetricUpdate)
    ensures
        update == (MetricUpdate { metric: Metric::EncoderDrops, change: Change::CountBy(1) }),
{
    MetricUpdate { metric: Metric::EncoderDrops, change: Change::CountBy(1) }
}

/// A frame was encoded.
pub fn record_frame_encoded() -> (update: MetricUpdate)
    ensures
        update == (MetricUpdate { metric: Metric::FramesEncoded, change: Change::CountBy(1) }),
{
    MetricUpdate { metric: Metric::FramesEncoded, change: Change::CountBy(1) }
}

/// A slow peer skipped `n` frames.
pub fn record_peer_lag(n: u64) -> (update: MetricUpdate)
    ensures
        update == (MetricUpdate { metric: Metric::PeerLagFrames, change: Change::CountBy(n) }),
{
    MetricUpdate { metric: Metric::PeerLagFrames, change: Change::CountBy(n) }
}

/// A peer connection was registered.
pub fn increment_active_peers() -> (update: MetricUpdate)
    ensures
        update == (MetricUpdate { metric: Metric::PeersActive, change: Change::Rise }),
{
    MetricUpdate { metric: Metric::PeersActive, change: Change::Rise }
}

/// A registered peer connection is gone.
pub fn decrement_active_peers() -> (update: MetricUpdate)
    ensures
        update == (MetricUpdate { metric: Metric::PeersActive, change: Change::Fall }),
{
    MetricUpdate { metric: Metric::PeersActive, change: Change::Fall }
}

/// No two metrics share a name.
pub proof fn names_tell_metrics_apart(a: Metric, b: Metric)
    requires
        metric_name(a) == metric_name(b),
    ensures
        a == b,
{
    reveal_strlit("stream_encoder_drops_total");
    reveal_strlit("stream_frames_encoded_total");
    reveal_strlit("stream_peers_active");
    reveal_strlit("stream_peer_lag_frames_total");
    assert("stream_encoder_drops_total"@.len() == 26);
    assert("stream_frames_encoded_total"@.len() == 27);
    assert("stream_peers_active"@.len() == 19);
    assert("stream_peer_lag_frames_total"@.len() == 28);
}

/// A metric shows the sum of its own updates: a count adds its amount, a rise
/// adds one, a fall takes one off, and the updates of other metrics do nothing.
pub proof fn metrics_add_up(updates: Seq<MetricUpdate>, next: MetricUpdate, metric: Metric)
    ensures
        metric_total(Seq::empty(), metric) == 0,
        next.metric != metric ==> metric_total(updates.push(next), metric) == metric_total(
            updates,
            metric,
        ),
        next.metric == metric ==> metric_total(updates.push(next), metric) - metric_total(
            updates,
            metric,
        ) == (match next.change {
            Change::CountBy(n) => n as int,
            Change::Rise => 1,
            Change::Fall => -1,
        }),
{
    assert(updates.push(next).drop_last() =~= updates);
}

} // verus!
