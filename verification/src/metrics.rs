//! Prometheus metrics: the series and their labels, and what a telemetry
//! packet does to them.
//!
//! The sinks turn a packet into a list of [`Update`]s. Nothing here holds the
//! running values: a counter grows by what its updates say, a gauge takes the
//! value of its last update, a histogram records each observation.

use crate::foreign::{
    has_dead_letter, has_duplicate, has_process_error, has_process_panic, has_used_overflow, quoted,
};
use crate::foreign;
use crate::pairs;
use crate::pairs::{clone_pairs, pair, Pair};
use crate::text;
use crate::text::{same_text, signed_decimal_text, OptionText};
use prometheus_client::registry::Registry;
use std::sync::{Arc, OnceLock};
use vstd::prelude::*;
use vstd::string::*;

verus! {

/// One message's metrics packet.
#[derive(Debug, Clone, Copy, PartialEq, Eq)]
pub struct MessageMetrics {
    /// Framework and application trait bits.
    pub traits: u64,
    /// Number of messages queued for the worker that serves the key.
    pub queue_depth: i32,
    /// Kafka partition.
    pub partition: i32,
    /// Offset within the partition.
    pub offset: i64,
    /// Time spent in the process handler, in nanoseconds.
    pub process_duration_ns: i64,
    /// Time spent in the dead-letter handler, in nanoseconds.
    pub deadletter_duration_ns: i64,
    /// When the message was read, Unix epoch nanoseconds.
    pub read_time_ns: i64,
    /// When processing started, Unix epoch nanoseconds.
    pub process_start_time_ns: i64,
    /// When the offset watermark advanced, Unix epoch nanoseconds.
    pub watermark_advance_time_ns: i64,
}

/// A flushed bandwidth packet.
#[derive(Debug, PartialEq, Eq)]
pub struct BandwidthMetrics {
    /// Measurement time, Unix epoch nanoseconds.
    pub ts_unix_ns: i64,
    /// The collection cadence, in milliseconds.
    pub stats_interval_ms: i64,
    /// Idempotency ID of the packet.
    pub metrics_id: String,
    /// Topic that the packet describes.
    pub topic: String,
    /// Consumer group that the packet describes.
    pub consumer_group: String,
    /// Broker topology at measurement time.
    pub brokers: Vec<BrokerInfo>,
    /// Per-partition counters.
    pub partitions: Vec<PartitionBandwidth>,
}

/// A broker of the cluster.
#[derive(Debug, PartialEq, Eq)]
pub struct BrokerInfo {
    /// Broker node ID.
    pub id: String,
    /// Broker host.
    pub host: String,
    /// Broker port.
    pub port: String,
    /// Availability zone or rack; empty when there is none.
    pub rack: String,
}

/// One partition's counters.
#[derive(Debug, PartialEq, Eq)]
pub struct PartitionBandwidth {
    /// Measurement time, Unix epoch nanoseconds.
    pub ts_unix_ns: i64,
    /// Bytes received.
    pub received_bytes: i64,
    /// Bytes transmitted.
    pub transmitted_bytes: i64,
    /// Messages received.
    pub received_message_count: i64,
    /// Wire bytes; zero if unavailable.
    pub compressed_bytes: i64,
    /// Decompressed bytes; zero if unavailable.
    pub uncompressed_bytes: i64,
    /// Partition number.
    pub id: i32,
    /// Broker serving the partition.
    pub leader: String,
    /// Compression algorithm; empty if unavailable.
    pub compression: String,
}

/// Content type of the exposition.
pub const OPENMETRICS_CONTENT_TYPE: &'static str =
    "application/openmetrics-text; version=1.0.0; charset=utf-8";

// ---------------------------------------------------------------------------
// Series
// ---------------------------------------------------------------------------

/// A metric series.
#[derive(Debug, Clone, Copy, PartialEq, Eq, Structural)]
pub enum Series {
    /// Messages processed.
    Processed,
    /// Messages whose handler returned an error.
    Errored,
    /// Messages on which the engine recovered a panic.
    Panicked,
    /// Messages routed to the dead-letter handler.
    DeadLettered,
    /// Messages delivered again.
    Duplicate,
    /// Messages dispatched over the overflow path.
    UsedOverflow,
    /// Queue depth.
    QueueDepth,
    /// Offset being processed.
    CurrentOffset,
    /// Time in the process handler.
    ProcessDuration,
    /// Time in the dead-letter handler.
    DeadLetterDuration,
    /// Time between reading and processing.
    QueueWaitDuration,
    /// Bytes received.
    ReceivedBytes,
    /// Bytes transmitted.
    TransmittedBytes,
    /// Messages received.
    ReceivedMessages,
    /// Compressed bytes received.
    CompressedBytes,
    /// Uncompressed bytes received.
    UncompressedBytes,
    /// Brokers in the cluster.
    BrokerCount,
    /// Assigned partitions.
    PartitionCount,
    /// Collection cadence.
    StatsInterval,
    /// Time of the last collection.
    LastCollection,
    /// Broker topology.
    BrokerInfo,
}

/// The namespace that the full name of every series starts with.
pub const NAMESPACE: &'static str = "llingr";

/// What a series records.
#[derive(Debug, Clone, Copy, PartialEq, Eq, Structural)]
pub enum SeriesKind {
    /// A running total of whole numbers.
    Counter,
    /// A current value, a whole number.
    Gauge,
    /// A current value in seconds, given in milliseconds.
    SecondsGauge,
    /// Observed times in seconds, given in nanoseconds, in buckets whose
    /// bounds double from the first one.
    Histogram {
        /// The first bound, in microseconds.
        first_micros: u32,
        /// The number of bounds.
        buckets: u16,
    },
}

impl Series {
    /// Whether the series belongs to the bandwidth telemetry.
    pub open spec fn is_bandwidth(self) -> bool {
        match self {
            Series::ReceivedBytes => true,
            Series::TransmittedBytes => true,
            Series::ReceivedMessages => true,
            Series::CompressedBytes => true,
            Series::UncompressedBytes => true,
            Series::BrokerCount => true,
            Series::PartitionCount => true,
            Series::StatsInterval => true,
            Series::LastCollection => true,
            Series::BrokerInfo => true,
            _ => false,
        }
    }

    /// The series' name behind its prefix. The exposition format itself adds
    /// `_total` to the name of a counter.
    pub open spec fn spec_name(self) -> Seq<char> {
        match self {
            Series::Processed => "processed"@,
            Series::Errored => "errored"@,
            Series::Panicked => "panicked"@,
            Series::DeadLettered => "dead_lettered"@,
            Series::Duplicate => "duplicate"@,
            Series::UsedOverflow => "used_overflow"@,
            Series::QueueDepth => "queue_depth"@,
            Series::CurrentOffset => "current_offset"@,
            Series::ProcessDuration => "process_duration_seconds"@,
            Series::DeadLetterDuration => "dead_letter_duration_seconds"@,
            Series::QueueWaitDuration => "queue_wait_duration_seconds"@,
            Series::ReceivedBytes => "received_bytes"@,
            Series::TransmittedBytes => "transmitted_bytes"@,
            Series::ReceivedMessages => "received_messages"@,
            Series::CompressedBytes => "compressed_bytes"@,
            Series::UncompressedBytes => "uncompressed_bytes"@,
            Series::BrokerCount => "broker_count"@,
            Series::PartitionCount => "partition_count"@,
            Series::StatsInterval => "stats_interval_seconds"@,
            Series::LastCollection => "last_collection_timestamp_seconds"@,
            Series::BrokerInfo => "broker_info"@,
        }
    }

    /// The series' help text.
    pub open spec fn spec_help(self) -> Seq<char> {
        match self {
            Series::Processed => "Total number of messages processed"@,
            Series::Errored => "Total number of messages that resulted in processing errors"@,
            Series::Panicked => "Total number of messages where processing panicked"@,
            Series::DeadLettered => "Total number of messages sent to dead letter queue"@,
            Series::Duplicate => "Total number of duplicate messages detected"@,
            Series::UsedOverflow => "Total messages that used guard channel overflow during worker acquisition"@,
            Series::QueueDepth => "Current queue depth for buffering implementations"@,
            Series::CurrentOffset => "Current offset being processed per partition"@,
            Series::ProcessDuration => "Time spent processing messages"@,
            Series::DeadLetterDuration => "Time spent writing to dead letter queue"@,
            Series::QueueWaitDuration => "Time messages spent waiting in queue before processing"@,
            Series::ReceivedBytes => "Total bytes received by llingr consumer instances"@,
            Series::TransmittedBytes => "Total bytes transmitted by llingr consumer instances"@,
            Series::ReceivedMessages => "Total messages received by llingr consumer instances"@,
            Series::CompressedBytes => "Total compressed (wire) bytes received; zero when compression visibility is unavailable"@,
            Series::UncompressedBytes => "Total uncompressed (decompressed) bytes received; zero when compression visibility is unavailable"@,
            Series::BrokerCount => "Number of brokers in the cluster at last collection"@,
            Series::PartitionCount => "Number of assigned partitions at last collection"@,
            Series::StatsInterval => "Configured collection cadence in seconds"@,
            Series::LastCollection => "Unix timestamp of the most recent bandwidth collection"@,
            Series::BrokerInfo => "Broker topology at last collection (info metric, always 1.0)"@,
        }
    }

    /// What the series records.
    pub open spec fn spec_kind(self) -> SeriesKind {
        match self {
            Series::Processed => SeriesKind::Counter,
            Series::Errored => SeriesKind::Counter,
            Series::Panicked => SeriesKind::Counter,
            Series::DeadLettered => SeriesKind::Counter,
            Series::Duplicate => SeriesKind::Counter,
            Series::UsedOverflow => SeriesKind::Counter,
            Series::QueueDepth => SeriesKind::Gauge,
            Series::CurrentOffset => SeriesKind::Gauge,
            Series::ProcessDuration => SeriesKind::Histogram { first_micros: 1000, buckets: 15 },
            Series::DeadLetterDuration => SeriesKind::Histogram { first_micros: 1000, buckets: 15 },
            Series::QueueWaitDuration => SeriesKind::Histogram { first_micros: 100, buckets: 18 },
            Series::ReceivedBytes => SeriesKind::Counter,
            Series::TransmittedBytes => SeriesKind::Counter,
            Series::ReceivedMessages => SeriesKind::Counter,
            Series::CompressedBytes => SeriesKind::Counter,
            Series::UncompressedBytes => SeriesKind::Counter,
            Series::BrokerCount => SeriesKind::Gauge,
            Series::PartitionCount => SeriesKind::Gauge,
            Series::StatsInterval => SeriesKind::SecondsGauge,
            Series::LastCollection => SeriesKind::Gauge,
            Series::BrokerInfo => SeriesKind::Gauge,
        }
    }

    /// The subsystem that the series' name is prefixed with, behind the
    /// [`NAMESPACE`].
    pub fn subsystem(self) -> (r: &'static str)
        ensures
            r@ == if self.is_bandwidth() {
                "bandwidth"@
            } else {
                "engine"@
            },
    {
        match self {
            Series::ReceivedBytes => "bandwidth",
            Series::TransmittedBytes => "bandwidth",
            Series::ReceivedMessages => "bandwidth",
            Series::CompressedBytes => "bandwidth",
            Series::UncompressedBytes => "bandwidth",
            Series::BrokerCount => "bandwidth",
            Series::PartitionCount => "bandwidth",
            Series::StatsInterval => "bandwidth",
            Series::LastCollection => "bandwidth",
            Series::BrokerInfo => "bandwidth",
            _ => "engine",
        }
    }

    /// The series' name behind its prefix.
    pub fn name(self) -> (r: &'static str)
        ensures
            r@ == self.spec_name(),
    {
        match self {
            Series::Processed => "processed",
            Series::Errored => "errored",
            Series::Panicked => "panicked",
            Series::DeadLettered => "dead_lettered",
            Series::Duplicate => "duplicate",
            Series::UsedOverflow => "used_overflow",
            Series::QueueDepth => "queue_depth",
            Series::CurrentOffset => "current_offset",
            Series::ProcessDuration => "process_duration_seconds",
            Series::DeadLetterDuration => "dead_letter_duration_seconds",
            Series::QueueWaitDuration => "queue_wait_duration_seconds",
            Series::ReceivedBytes => "received_bytes",
            Series::TransmittedBytes => "transmitted_bytes",
            Series::ReceivedMessages => "received_messages",
            Series::CompressedBytes => "compressed_bytes",
            Series::UncompressedBytes => "uncompressed_bytes",
            Series::BrokerCount => "broker_count",
            Series::PartitionCount => "partition_count",
            Series::StatsInterval => "stats_interval_seconds",
            Series::LastCollection => "last_collection_timestamp_seconds",
            Series::BrokerInfo => "broker_info",
        }
    }

    /// The series' help text.
    pub fn help(self) -> (r: &'static str)
        ensures
            r@ == self.spec_help(),
    {
        match self {
            Series::Processed => "Total number of messages processed",
            Series::Errored => "Total number of messages that resulted in processing errors",
            Series::Panicked => "Total number of messages where processing panicked",
            Series::DeadLettered => "Total number of messages sent to dead letter queue",
            Series::Duplicate => "Total number of duplicate messages detected",
            Series::UsedOverflow => "Total messages that used guard channel overflow during worker acquisition",
            Series::QueueDepth => "Current queue depth for buffering implementations",
            Series::CurrentOffset => "Current offset being processed per partition",
            Series::ProcessDuration => "Time spent processing messages",
            Series::DeadLetterDuration => "Time spent writing to dead letter queue",
            Series::QueueWaitDuration => "Time messages spent waiting in queue before processing",
            Series::ReceivedBytes => "Total bytes received by llingr consumer instances",
            Series::TransmittedBytes => "Total bytes transmitted by llingr consumer instances",
            Series::ReceivedMessages => "Total messages received by llingr consumer instances",
            Series::CompressedBytes => "Total compressed (wire) bytes received; zero when compression visibility is unavailable",
            Series::UncompressedBytes => "Total uncompressed (decompressed) bytes received; zero when compression visibility is unavailable",
            Series::BrokerCount => "Number of brokers in the cluster at last collection",
            Series::PartitionCount => "Number of assigned partitions at last collection",
            Series::StatsInterval => "Configured collection cadence in seconds",
            Series::LastCollection => "Unix timestamp of the most recent bandwidth collection",
            Series::BrokerInfo => "Broker topology at last collection (info metric, always 1.0)",
        }
    }

    /// What the series records.
    pub fn kind(self) -> (r: SeriesKind)
        ensures
            r == self.spec_kind(),
    {
        match self {
            Series::Processed => SeriesKind::Counter,
            Series::Errored => SeriesKind::Counter,
            Series::Panicked => SeriesKind::Counter,
            Series::DeadLettered => SeriesKind::Counter,
            Series::Duplicate => SeriesKind::Counter,
            Series::UsedOverflow => SeriesKind::Counter,
            Series::QueueDepth => SeriesKind::Gauge,
            Series::CurrentOffset => SeriesKind::Gauge,
            Series::ProcessDuration => SeriesKind::Histogram { first_micros: 1000, buckets: 15 },
            Series::DeadLetterDuration => SeriesKind::Histogram { first_micros: 1000, buckets: 15 },
            Series::QueueWaitDuration => SeriesKind::Histogram { first_micros: 100, buckets: 18 },
            Series::ReceivedBytes => SeriesKind::Counter,
            Series::TransmittedBytes => SeriesKind::Counter,
            Series::ReceivedMessages => SeriesKind::Counter,
            Series::CompressedBytes => SeriesKind::Counter,
            Series::UncompressedBytes => SeriesKind::Counter,
            Series::BrokerCount => SeriesKind::Gauge,
            Series::PartitionCount => SeriesKind::Gauge,
            Series::StatsInterval => SeriesKind::SecondsGauge,
            Series::LastCollection => SeriesKind::Gauge,
            Series::BrokerInfo => SeriesKind::Gauge,
        }
    }
}

/// The per-message series, in the order in which they are registered.
pub open spec fn message_series() -> Seq<Series> {
    seq![
        Series::Processed,
        Series::Errored,
        Series::Panicked,
        Series::DeadLettered,
        Series::Duplicate,
        Series::UsedOverflow,
        Series::QueueDepth,
        Series::CurrentOffset,
        Series::ProcessDuration,
        Series::DeadLetterDuration,
        Series::QueueWaitDuration,
    ]
}

/// The bandwidth series, in the order in which they are registered.
pub open spec fn bandwidth_series() -> Seq<Series> {
    seq![
        Series::ReceivedBytes,
        Series::TransmittedBytes,
        Series::ReceivedMessages,
        Series::CompressedBytes,
        Series::UncompressedBytes,
        Series::BrokerCount,
        Series::PartitionCount,
        Series::StatsInterval,
        Series::LastCollection,
        Series::BrokerInfo,
    ]
}

// ---------------------------------------------------------------------------
// Updates
// ---------------------------------------------------------------------------

/// One change to one series under one label set.
pub enum Update {
    /// A counter grows.
    Increase {
        /// The counter.
        series: Series,
        /// Its labels, in order.
        labels: Vec<(String, String)>,
        /// By how much.
        by: u64,
    },
    /// A gauge takes a value.
    Gauge {
        /// The gauge.
        series: Series,
        /// Its labels, in order.
        labels: Vec<(String, String)>,
        /// The value.
        value: i64,
    },
    /// A gauge in seconds takes a value.
    GaugeMillis {
        /// The gauge.
        series: Series,
        /// Its labels, in order.
        labels: Vec<(String, String)>,
        /// The value in milliseconds.
        millis: i64,
    },
    /// A histogram records a time.
    Observe {
        /// The histogram.
        series: Series,
        /// Its labels, in order.
        labels: Vec<(String, String)>,
        /// The time in nanoseconds.
        nanos: u64,
    },
}

/// One change to one series under one label set, as texts and numbers.
#[verifier::ext_equal]
pub enum UpdateModel {
    /// A counter grows.
    Increase { series: Series, labels: Seq<Pair>, by: u64 },
    /// A gauge takes a value.
    Gauge { series: Series, labels: Seq<Pair>, value: i64 },
    /// A gauge in seconds takes a value.
    GaugeMillis { series: Series, labels: Seq<Pair>, millis: i64 },
    /// A histogram records a time.
    Observe { series: Series, labels: Seq<Pair>, nanos: u64 },
}

impl View for Update {
    type V = UpdateModel;

    open spec fn view(&self) -> UpdateModel {
        match *self {
            Update::Increase { series, labels, by } => UpdateModel::Increase {
                series,
                labels: pairs::pair_texts(labels@),
                by,
            },
            Update::Gauge { series, labels, value } => UpdateModel::Gauge {
                series,
                labels: pairs::pair_texts(labels@),
                value,
            },
            Update::GaugeMillis { series, labels, millis } => UpdateModel::GaugeMillis {
                series,
                labels: pairs::pair_texts(labels@),
                millis,
            },
            Update::Observe { series, labels, nanos } => UpdateModel::Observe {
                series,
                labels: pairs::pair_texts(labels@),
                nanos,
            },
        }
    }
}

/// The updates of a list.
pub open spec fn update_models(v: Seq<Update>) -> Seq<UpdateModel> {
    Seq::new(v.len(), |i: int| v[i]@)
}

/// A counter's growth by a number, when that is positive.
pub open spec fn growth(series: Series, labels: Seq<Pair>, by: i64) -> Seq<UpdateModel> {
    if by > 0 {
        seq![UpdateModel::Increase { series, labels, by: by as u64 }]
    } else {
        seq![]
    }
}

/// A counter's growth by one, when a condition holds.
pub open spec fn tick(series: Series, labels: Seq<Pair>, condition: bool) -> Seq<UpdateModel> {
    if condition {
        seq![UpdateModel::Increase { series, labels, by: 1 }]
    } else {
        seq![]
    }
}

/// The observation of a time, when that is positive.
pub open spec fn observation(series: Series, labels: Seq<Pair>, nanos: int) -> Seq<UpdateModel> {
    if nanos > 0 {
        seq![UpdateModel::Observe { series, labels, nanos: nanos as u64 }]
    } else {
        seq![]
    }
}

fn push_update(out: &mut Vec<Update>, update: Update)
    ensures
        update_models(final(out)@) == update_models(old(out)@).push(update@),
{
    let ghost before = update_models(out@);
    out.push(update);
    assert(update_models(out@) =~= before.push(update@));
}

fn push_growth(out: &mut Vec<Update>, series: Series, labels: &Vec<(String, String)>, by: i64)
    ensures
        update_models(final(out)@) == update_models(old(out)@) + growth(
            series,
            pairs::pair_texts(labels@),
            by,
        ),
{
    let ghost before = update_models(out@);
    if by > 0 {
        push_update(out, Update::Increase { series, labels: clone_pairs(labels), by: by as u64 });
    }
    assert(update_models(out@) =~= before + growth(series, pairs::pair_texts(labels@), by));
}

fn push_tick(
    out: &mut Vec<Update>,
    series: Series,
    labels: &Vec<(String, String)>,
    condition: bool,
)
    ensures
        update_models(final(out)@) == update_models(old(out)@) + tick(
            series,
            pairs::pair_texts(labels@),
            condition,
        ),
{
    let ghost before = update_models(out@);
    if condition {
        push_update(out, Update::Increase { series, labels: clone_pairs(labels), by: 1 });
    }
    assert(update_models(out@) =~= before + tick(series, pairs::pair_texts(labels@), condition));
}

fn push_set(out: &mut Vec<Update>, series: Series, labels: &Vec<(String, String)>, value: i64)
    ensures
        update_models(final(out)@) == update_models(old(out)@).push(
            UpdateModel::Gauge { series, labels: pairs::pair_texts(labels@), value },
        ),
{
    push_update(out, Update::Gauge { series, labels: clone_pairs(labels), value });
}

fn push_observation(
    out: &mut Vec<Update>,
    series: Series,
    labels: &Vec<(String, String)>,
    nanos: u64,
)
    ensures
        update_models(final(out)@) == update_models(old(out)@) + observation(
            series,
            pairs::pair_texts(labels@),
            nanos as int,
        ),
{
    let ghost before = update_models(out@);
    if nanos > 0 {
        push_update(out, Update::Observe { series, labels: clone_pairs(labels), nanos });
    }
    assert(update_models(out@) =~= before + observation(
        series,
        pairs::pair_texts(labels@),
        nanos as int,
    ));
}

/// The time from `from` to `to`: zero when `to` is not the later one.
fn elapsed(from: i64, to: i64) -> (r: u64)
    ensures
        r == if to > from {
            to - from
        } else {
            0
        },
{
    if to > from {
        let span: i128 = to as i128 - from as i128;
        span as u64
    } else {
        0
    }
}

// ---------------------------------------------------------------------------
// Per-message sink
// ---------------------------------------------------------------------------

/// The identity that labels the per-message series. What is left unset is an
/// empty label value.
pub struct MessageOptions {
    /// The consumed topic.
    pub topic: String,
    /// The consumer group.
    pub consumer_group: String,
    /// The service name.
    pub service: String,
    /// The owning team.
    pub team: String,
}

impl MessageOptions {
    /// Start with an empty identity.
    pub fn new() -> (r: Self)
        ensures
            r.topic@ == Seq::<char>::empty(),
            r.consumer_group@ == Seq::<char>::empty(),
            r.service@ == Seq::<char>::empty(),
            r.team@ == Seq::<char>::empty(),
    {
        MessageOptions {
            topic: String::new(),
            consumer_group: String::new(),
            service: String::new(),
            team: String::new(),
        }
    }

    /// Set the `topic` label.
    pub fn topic<T: OptionText>(self, topic: T) -> (r: Self)
        ensures
            r.topic@ == topic.text(),
            r == (MessageOptions { topic: r.topic, ..self }),
    {
        MessageOptions { topic: topic.into_text(), ..self }
    }

    /// Set the `consumer_group` label.
    pub fn consumer_group<T: OptionText>(self, group: T) -> (r: Self)
        ensures
            r.consumer_group@ == group.text(),
            r == (MessageOptions { consumer_group: r.consumer_group, ..self }),
    {
        MessageOptions { consumer_group: group.into_text(), ..self }
    }

    /// Set the `service` and `team` labels.
    pub fn service<N: OptionText, T: OptionText>(self, name: N, team: T) -> (r: Self)
        ensures
            r.service@ == name.text(),
            r.team@ == team.text(),
            r == (MessageOptions { service: r.service, team: r.team, ..self }),
    {
        MessageOptions { service: name.into_text(), team: team.into_text(), ..self }
    }
}

/// Turns per-message metrics packets into updates of the `llingr_engine`
/// series.
pub struct MessageSink {
    /// The identity that labels the series.
    pub identity: MessageOptions,
}

/// The labels that name a consumer.
pub open spec fn identity_labels(
    topic: Seq<char>,
    group: Seq<char>,
    service: Seq<char>,
    team: Seq<char>,
) -> Seq<Pair> {
    seq![
        ("topic"@, topic),
        ("consumer_group"@, group),
        ("service"@, service),
        ("team"@, team),
    ]
}

/// The label for a partition.
pub open spec fn partition_label(partition: i32) -> Pair {
    ("partition"@, text::signed_decimal(partition as int))
}

/// How long the message waited between reading and processing; zero unless
/// both times are set.
pub open spec fn queue_wait(m: MessageMetrics) -> int {
    if m.read_time_ns != 0 && m.process_start_time_ns != 0 {
        m.process_start_time_ns - m.read_time_ns
    } else {
        0
    }
}

impl MessageSink {
    /// The labels of the per-message series for one partition.
    pub open spec fn label_texts(self, partition: i32) -> Seq<Pair> {
        identity_labels(
            self.identity.topic@,
            self.identity.consumer_group@,
            self.identity.service@,
            self.identity.team@,
        ).push(partition_label(partition))
    }

    /// The counts of a packet: one for the message, and one for each condition
    /// that its framework bits report.
    pub open spec fn counts(self, m: MessageMetrics) -> Seq<UpdateModel> {
        let labels = self.label_texts(m.partition);
        tick(Series::Processed, labels, true) + tick(
            Series::Errored,
            labels,
            m.traits & 1 != 0,
        ) + tick(Series::Panicked, labels, m.traits & 2 != 0) + tick(
            Series::DeadLettered,
            labels,
            m.traits & 4 != 0,
        ) + tick(Series::Duplicate, labels, m.traits & 16 != 0) + tick(
            Series::UsedOverflow,
            labels,
            m.traits & 32 != 0,
        )
    }

    /// The gauges that a packet sets.
    pub open spec fn gauges(self, m: MessageMetrics) -> Seq<UpdateModel> {
        let labels = self.label_texts(m.partition);
        seq![
            UpdateModel::Gauge { series: Series::QueueDepth, labels, value: m.queue_depth as i64 },
            UpdateModel::Gauge { series: Series::CurrentOffset, labels, value: m.offset },
        ]
    }

    /// The times of a packet that are positive.
    pub open spec fn times(self, m: MessageMetrics) -> Seq<UpdateModel> {
        let labels = self.label_texts(m.partition);
        observation(Series::ProcessDuration, labels, m.process_duration_ns as int) + observation(
            Series::DeadLetterDuration,
            labels,
            m.deadletter_duration_ns as int,
        ) + observation(Series::QueueWaitDuration, labels, queue_wait(m))
    }

    /// The updates that a packet makes: its counts, the two gauges, and the
    /// times that are positive.
    pub open spec fn updates(self, m: MessageMetrics) -> Seq<UpdateModel> {
        self.counts(m) + self.gauges(m) + self.times(m)
    }

    /// A sink for the given identity, and the series to register for it.
    pub fn register(options: MessageOptions) -> (r: (Self, Vec<Series>))
        ensures
            r.0.identity == options,
            r.1@ == message_series(),
    {
        let series = vec![
            Series::Processed,
            Series::Errored,
            Series::Panicked,
            Series::DeadLettered,
            Series::Duplicate,
            Series::UsedOverflow,
            Series::QueueDepth,
            Series::CurrentOffset,
            Series::ProcessDuration,
            Series::DeadLetterDuration,
            Series::QueueWaitDuration,
        ];
        assert(series@ =~= message_series());
        (MessageSink { identity: options }, series)
    }

    /// The labels of the per-message series for one partition.
    pub fn labels(&self, partition: i32) -> (r: Vec<(String, String)>)
        ensures
            pairs::pair_texts(r@) == self.label_texts(partition),
    {
        let number = signed_decimal_text(partition as i128);
        let mut r = identity_pairs(
            self.identity.topic.as_str(),
            self.identity.consumer_group.as_str(),
            self.identity.service.as_str(),
            self.identity.team.as_str(),
        );
        let ghost before = r@;
        r.push(pair("partition", number.as_str()));
        assert(pairs::pair_texts(r@) =~= pairs::pair_texts(before).push(
            partition_label(partition),
        ));
        r
    }

    fn push_counts(
        &self,
        out: &mut Vec<Update>,
        labels: &Vec<(String, String)>,
        metrics: &MessageMetrics,
    )
        requires
            pairs::pair_texts(labels@) == self.label_texts(metrics.partition),
        ensures
            update_models(final(out)@) == update_models(old(out)@) + self.counts(*metrics),
    {
        let ghost before = update_models(out@);
        let bits: u64 = metrics.traits;
        push_tick(out, Series::Processed, labels, true);
        push_tick(out, Series::Errored, labels, has_process_error(bits));
        push_tick(out, Series::Panicked, labels, has_process_panic(bits));
        push_tick(out, Series::DeadLettered, labels, has_dead_letter(bits));
        push_tick(out, Series::Duplicate, labels, has_duplicate(bits));
        push_tick(out, Series::UsedOverflow, labels, has_used_overflow(bits));
        assert(update_models(out@) =~= before + self.counts(*metrics));
    }

    fn push_times(
        &self,
        out: &mut Vec<Update>,
        labels: &Vec<(String, String)>,
        metrics: &MessageMetrics,
    )
        requires
            pairs::pair_texts(labels@) == self.label_texts(metrics.partition),
        ensures
            update_models(final(out)@) == update_models(old(out)@) + self.times(*metrics),
    {
        let ghost before = update_models(out@);
        let process: u64 = elapsed(0, metrics.process_duration_ns);
        let dead_letter: u64 = elapsed(0, metrics.deadletter_duration_ns);
        let wait: u64 = if metrics.read_time_ns != 0 && metrics.process_start_time_ns != 0 {
            elapsed(metrics.read_time_ns, metrics.process_start_time_ns)
        } else {
            0
        };
        push_observation(out, Series::ProcessDuration, labels, process);
        push_observation(out, Series::DeadLetterDuration, labels, dead_letter);
        push_observation(out, Series::QueueWaitDuration, labels, wait);
        assert(update_models(out@) =~= before + self.times(*metrics));
    }

    /// The updates that a packet makes, whatever its times are.
    pub fn handle(&self, metrics: &MessageMetrics) -> (r: Vec<Update>)
        ensures
            update_models(r@) == self.updates(*metrics),
    {
        let labels = self.labels(metrics.partition);
        let mut out: Vec<Update> = Vec::new();
        assert(update_models(out@) =~= seq![]);
        self.push_counts(&mut out, &labels, metrics);
        assert(update_models(out@) =~= self.counts(*metrics));
        push_set(&mut out, Series::QueueDepth, &labels, metrics.queue_depth as i64);
        push_set(&mut out, Series::CurrentOffset, &labels, metrics.offset);
        assert(update_models(out@) =~= self.counts(*metrics) + self.gauges(*metrics));
        self.push_times(&mut out, &labels, metrics);
        out
    }
}

fn identity_pairs(topic: &str, group: &str, service: &str, team: &str) -> (r: Vec<(String, String)>)
    ensures
        pairs::pair_texts(r@) == identity_labels(topic@, group@, service@, team@),
{
    let mut r: Vec<(String, String)> = Vec::new();
    r.push(pair("topic", topic));
    r.push(pair("consumer_group", group));
    r.push(pair("service", service));
    r.push(pair("team", team));
    assert(pairs::pair_texts(r@) =~= identity_labels(topic@, group@, service@, team@));
    r
}

// ---------------------------------------------------------------------------
// Bandwidth sink
// ---------------------------------------------------------------------------

/// The service identity that labels the bandwidth series; topic and group come
/// with each packet.
pub struct BandwidthOptions {
    /// The service name.
    pub service: String,
    /// The owning team.
    pub team: String,
}

impl BandwidthOptions {
    /// Start with an empty identity.
    pub fn new() -> (r: Self)
        ensures
            r.service@ == Seq::<char>::empty(),
            r.team@ == Seq::<char>::empty(),
    {
        BandwidthOptions { service: String::new(), team: String::new() }
    }

    /// Set the `service` and `team` labels.
    pub fn service<N: OptionText, T: OptionText>(self, name: N, team: T) -> (r: Self)
        ensures
            r.service@ == name.text(),
            r.team@ == team.text(),
    {
        BandwidthOptions { service: name.into_text(), team: team.into_text() }
    }
}

/// Turns bandwidth packets into updates of the `llingr_bandwidth` series. Each
/// counter field of a packet is what came in since the packet before.
pub struct BandwidthSink {
    /// The service identity that labels the series.
    pub identity: BandwidthOptions,
}

/// The whole seconds of a time in nanoseconds, rounded towards zero.
pub open spec fn whole_seconds(ns: int) -> int {
    if ns >= 0 {
        ns / 1_000_000_000
    } else {
        -((-ns) / 1_000_000_000)
    }
}

/// The compression label: `unknown` when the packet names no algorithm.
pub open spec fn compression_label(p: PartitionBandwidth) -> Pair {
    (
        "compression"@,
        if p.compression@.len() == 0 {
            "unknown"@
        } else {
            p.compression@
        },
    )
}

impl BandwidthSink {
    /// The labels of the cluster-level series.
    pub open spec fn topology_labels(self, m: BandwidthMetrics) -> Seq<Pair> {
        identity_labels(m.topic@, m.consumer_group@, self.identity.service@, self.identity.team@)
    }

    /// The labels of the per-partition series.
    pub open spec fn partition_labels(self, m: BandwidthMetrics, partition: i32) -> Seq<Pair> {
        self.topology_labels(m).push(partition_label(partition))
    }

    /// The updates for one broker of the packet.
    pub open spec fn broker_update(self, m: BandwidthMetrics, b: BrokerInfo) -> UpdateModel {
        UpdateModel::Gauge {
            series: Series::BrokerInfo,
            labels: self.topology_labels(m) + seq![
                ("broker_id"@, b.id@),
                ("broker_host"@, b.host@),
                ("broker_port"@, b.port@),
                ("broker_rack"@, b.rack@),
            ],
            value: 1,
        }
    }

    /// The updates for the brokers of the packet.
    pub open spec fn broker_updates(
        self,
        m: BandwidthMetrics,
        brokers: Seq<BrokerInfo>,
    ) -> Seq<UpdateModel> {
        Seq::new(brokers.len(), |i: int| self.broker_update(m, brokers[i]))
    }

    /// The updates for one partition of the packet.
    pub open spec fn partition_update(
        self,
        m: BandwidthMetrics,
        p: PartitionBandwidth,
    ) -> Seq<UpdateModel> {
        let labels = self.partition_labels(m, p.id);
        let compressed = labels.push(compression_label(p));
        growth(Series::ReceivedBytes, labels, p.received_bytes) + growth(
            Series::TransmittedBytes,
            labels,
            p.transmitted_bytes,
        ) + growth(Series::ReceivedMessages, labels, p.received_message_count) + growth(
            Series::CompressedBytes,
            compressed,
            p.compressed_bytes,
        ) + growth(Series::UncompressedBytes, compressed, p.uncompressed_bytes)
    }

    /// The updates for the partitions of the packet.
    pub open spec fn partition_updates(
        self,
        m: BandwidthMetrics,
        partitions: Seq<PartitionBandwidth>,
    ) -> Seq<UpdateModel>
        decreases partitions.len(),
    {
        if partitions.len() == 0 {
            seq![]
        } else {
            self.partition_updates(m, partitions.drop_last()) + self.partition_update(
                m,
                partitions.last(),
            )
        }
    }

    /// The updates for the cluster as a whole.
    pub open spec fn topology_updates(self, m: BandwidthMetrics) -> Seq<UpdateModel> {
        let labels = self.topology_labels(m);
        seq![
            UpdateModel::Gauge {
                series: Series::BrokerCount,
                labels,
                value: m.brokers@.len() as i64,
            },
            UpdateModel::Gauge {
                series: Series::PartitionCount,
                labels,
                value: m.partitions@.len() as i64,
            },
            UpdateModel::GaugeMillis {
                series: Series::StatsInterval,
                labels,
                millis: m.stats_interval_ms,
            },
        ] + if m.ts_unix_ns != 0 {
            seq![
                UpdateModel::Gauge {
                    series: Series::LastCollection,
                    labels,
                    value: whole_seconds(m.ts_unix_ns as int) as i64,
                },
            ]
        } else {
            seq![]
        }
    }

    /// The updates that a packet makes: the gauges of the cluster, an info
    /// series for every broker, and the growth of every partition's counters.
    pub open spec fn updates(self, m: BandwidthMetrics) -> Seq<UpdateModel> {
        self.topology_updates(m) + self.broker_updates(m, m.brokers@) + self.partition_updates(
            m,
            m.partitions@,
        )
    }

    /// A sink for the given identity, and the series to register for it.
    pub fn register(options: BandwidthOptions) -> (r: (Self, Vec<Series>))
        ensures
            r.0.identity == options,
            r.1@ == bandwidth_series(),
    {
        let series = vec![
            Series::ReceivedBytes,
            Series::TransmittedBytes,
            Series::ReceivedMessages,
            Series::CompressedBytes,
            Series::UncompressedBytes,
            Series::BrokerCount,
            Series::PartitionCount,
            Series::StatsInterval,
            Series::LastCollection,
            Series::BrokerInfo,
        ];
        assert(series@ =~= bandwidth_series());
        (BandwidthSink { identity: options }, series)
    }

    fn topology_pairs(&self, metrics: &BandwidthMetrics) -> (r: Vec<(String, String)>)
        ensures
            pairs::pair_texts(r@) == self.topology_labels(*metrics),
    {
        identity_pairs(
            metrics.topic.as_str(),
            metrics.consumer_group.as_str(),
            self.identity.service.as_str(),
            self.identity.team.as_str(),
        )
    }

    fn partition_pairs(&self, metrics: &BandwidthMetrics, partition: i32) -> (r: Vec<
        (String, String),
    >)
        ensures
            pairs::pair_texts(r@) == self.partition_labels(*metrics, partition),
    {
        let number = signed_decimal_text(partition as i128);
        let mut r = self.topology_pairs(metrics);
        let ghost before = r@;
        r.push(pair("partition", number.as_str()));
        assert(pairs::pair_texts(r@) =~= pairs::pair_texts(before).push(
            partition_label(partition),
        ));
        r
    }

    /// The labels of the compression series for one partition.
    pub fn compression_labels(&self, metrics: &BandwidthMetrics, p: &PartitionBandwidth) -> (r: Vec<
        (String, String),
    >)
        ensures
            pairs::pair_texts(r@) == self.partition_labels(*metrics, p.id).push(
                compression_label(*p),
            ),
    {
        let mut r = self.partition_pairs(metrics, p.id);
        let ghost before = r@;
        if p.compression.as_str().is_empty() {
            r.push(pair("compression", "unknown"));
        } else {
            r.push(pair("compression", p.compression.as_str()));
        }
        assert(pairs::pair_texts(r@) =~= pairs::pair_texts(before).push(compression_label(*p)));
        r
    }

    fn push_topology(&self, out: &mut Vec<Update>, metrics: &BandwidthMetrics)
        ensures
            update_models(final(out)@) == update_models(old(out)@) + self.topology_updates(
                *metrics,
            ),
    {
        let ghost before = update_models(out@);
        let labels = self.topology_pairs(metrics);
        push_set(out, Series::BrokerCount, &labels, metrics.brokers.len() as i64);
        push_set(out, Series::PartitionCount, &labels, metrics.partitions.len() as i64);
        push_update(
            out,
            Update::GaugeMillis {
                series: Series::StatsInterval,
                labels: clone_pairs(&labels),
                millis: metrics.stats_interval_ms,
            },
        );
        if metrics.ts_unix_ns != 0 {
            push_set(out, Series::LastCollection, &labels, to_seconds(metrics.ts_unix_ns));
        }
        assert(update_models(out@) =~= before + self.topology_updates(*metrics));
    }

    fn push_brokers(&self, out: &mut Vec<Update>, metrics: &BandwidthMetrics)
        ensures
            update_models(final(out)@) == update_models(old(out)@) + self.broker_updates(
                *metrics,
                metrics.brokers@,
            ),
    {
        let ghost before = update_models(out@);
        let ghost all = self.broker_updates(*metrics, metrics.brokers@);
        let mut i: usize = 0;
        while i < metrics.brokers.len()
            invariant
                i <= metrics.brokers.len(),
                all == self.broker_updates(*metrics, metrics.brokers@),
                update_models(out@) == before + all.take(i as int),
            decreases metrics.brokers.len() - i,
        {
            let broker = &metrics.brokers[i];
            let mut labels = self.topology_pairs(metrics);
            let ghost topology = labels@;
            labels.push(pair("broker_id", broker.id.as_str()));
            labels.push(pair("broker_host", broker.host.as_str()));
            labels.push(pair("broker_port", broker.port.as_str()));
            labels.push(pair("broker_rack", broker.rack.as_str()));
            assert(pairs::pair_texts(labels@) =~= pairs::pair_texts(topology) + seq![
                ("broker_id"@, broker.id@),
                ("broker_host"@, broker.host@),
                ("broker_port"@, broker.port@),
                ("broker_rack"@, broker.rack@),
            ]);
            push_update(out, Update::Gauge { series: Series::BrokerInfo, labels, value: 1 });
            assert(update_models(out@) =~= before + all.take(i + 1));
            i = i + 1;
        }
        assert(all.take(all.len() as int) =~= all);
    }

    fn push_partition(
        &self,
        out: &mut Vec<Update>,
        metrics: &BandwidthMetrics,
        p: &PartitionBandwidth,
    )
        ensures
            update_models(final(out)@) == update_models(old(out)@) + self.partition_update(
                *metrics,
                *p,
            ),
    {
        let ghost before = update_models(out@);
        let labels = self.partition_pairs(metrics, p.id);
        let compressed = self.compression_labels(metrics, p);
        push_growth(out, Series::ReceivedBytes, &labels, p.received_bytes);
        push_growth(out, Series::TransmittedBytes, &labels, p.transmitted_bytes);
        push_growth(out, Series::ReceivedMessages, &labels, p.received_message_count);
        push_growth(out, Series::CompressedBytes, &compressed, p.compressed_bytes);
        push_growth(out, Series::UncompressedBytes, &compressed, p.uncompressed_bytes);
        assert(update_models(out@) =~= before + self.partition_update(*metrics, *p));
    }

    /// The updates that a packet makes.
    pub fn handle(&self, metrics: &BandwidthMetrics) -> (r: Vec<Update>)
        ensures
            update_models(r@) == self.updates(*metrics),
    {
        let mut out: Vec<Update> = Vec::new();
        assert(update_models(out@) =~= seq![]);
        self.push_topology(&mut out, metrics);
        self.push_brokers(&mut out, metrics);
        let ghost before = update_models(out@);
        let ghost all = metrics.partitions@;
        assert(before =~= self.topology_updates(*metrics) + self.broker_updates(
            *metrics,
            metrics.brokers@,
        ));
        let mut i: usize = 0;
        assert(update_models(out@) =~= before + self.partition_updates(*metrics, all.take(0)));
        while i < metrics.partitions.len()
            invariant
                i <= metrics.partitions.len(),
                all == metrics.partitions@,
                update_models(out@) == before + self.partition_updates(
                    *metrics,
                    all.take(i as int),
                ),
            decreases metrics.partitions.len() - i,
        {
            self.push_partition(&mut out, metrics, &metrics.partitions[i]);
            assert(all.take(i + 1).drop_last() =~= all.take(i as int));
            assert(update_models(out@) =~= before + self.partition_updates(
                *metrics,
                all.take(i + 1),
            ));
            i = i + 1;
        }
        assert(all.take(all.len() as int) =~= all);
        assert(update_models(out@) =~= self.updates(*metrics));
        out
    }
}

fn to_seconds(ns: i64) -> (r: i64)
    ensures
        r == whole_seconds(ns as int),
{
    if ns >= 0 {
        ns / 1_000_000_000
    } else {
        let magnitude: i128 = -(ns as i128);
        let seconds: i128 = magnitude / 1_000_000_000;
        -(seconds as i64)
    }
}

// ---------------------------------------------------------------------------
// Activation
// ---------------------------------------------------------------------------

/// Where a built-in scrape endpoint listens, and the path it answers.
pub struct Endpoint {
    /// The address to bind.
    pub addr: String,
    /// The path that is answered with the exposition.
    pub path: String,
}

/// The place where the registry appears once the metrics are in effect. It is
/// shared: all its clones are one place.
pub type Slot = Arc<OnceLock<Arc<Registry>>>;

/// How the metrics are exposed.
pub enum Mode {
    /// On a built-in scrape endpoint.
    Serve(Endpoint),
    /// Without a server: the registry appears in the slot.
    Registry(Slot),
}

/// Prometheus metrics activation: a built-in scrape endpoint, or a handle for
/// the application's own HTTP stack. Both record the same series.
pub struct Metrics {
    mode: Mode,
}

/// What a [`Metrics`] value activates.
pub enum MetricsModel {
    /// A scrape endpoint on an address, answering a path.
    Serve { addr: Seq<char>, path: Seq<char> },
    /// No server; the exposition is rendered on demand from what is in the
    /// slot.
    Registry { slot: Slot },
}

impl View for Mode {
    type V = MetricsModel;

    open spec fn view(&self) -> MetricsModel {
        match *self {
            Mode::Serve(e) => MetricsModel::Serve { addr: e.addr@, path: e.path@ },
            Mode::Registry(slot) => MetricsModel::Registry { slot },
        }
    }
}

impl Mode {
    /// Whether there is a built-in scrape endpoint.
    pub fn is_serve(&self) -> (r: bool)
        ensures
            r == (self@ is Serve),
    {
        match self {
            Mode::Serve(_) => true,
            Mode::Registry(_) => false,
        }
    }
}

impl View for Metrics {
    type V = MetricsModel;

    closed spec fn view(&self) -> MetricsModel {
        self.mode@
    }
}

/// What the engine is given when metrics are active: the two sinks, the series
/// of both, which go to one registry, and where that registry is exposed.
pub struct RealisedMetrics {
    /// The per-message sink.
    pub message_sink: MessageSink,
    /// The bandwidth sink.
    pub bandwidth_sink: BandwidthSink,
    /// All the series, the per-message ones first.
    pub series: Vec<Series>,
    /// How the registry is exposed.
    pub mode: Mode,
}

impl Metrics {
    /// Serve the metrics on a built-in scrape endpoint: bind `addr` when the
    /// engine is built, and answer `GET path` with the exposition.
    pub fn serve<A: OptionText, P: OptionText>(addr: A, path: P) -> (r: Self)
        ensures
            r@ == (MetricsModel::Serve { addr: addr.text(), path: path.text() }),
    {
        Metrics {
            mode: Mode::Serve(Endpoint { addr: addr.into_text(), path: path.into_text() }),
        }
    }

    /// Record the metrics without serving them; the handle renders them, from
    /// the slot that they are put into.
    pub fn registry() -> (r: (Self, MetricsHandle))
        ensures
            r.0@ == (MetricsModel::Registry { slot: r.1@ }),
    {
        let slot: Slot = Arc::new(OnceLock::new());
        (Metrics { mode: Mode::Registry(slot.clone()) }, MetricsHandle { slot })
    }

    /// Put the activation into effect for a consumer.
    pub fn realise(self, topic: &str, consumer_group: &str, service: &str, team: &str) -> (r:
        RealisedMetrics)
        ensures
            r.message_sink.identity.topic@ == topic@,
            r.message_sink.identity.consumer_group@ == consumer_group@,
            r.message_sink.identity.service@ == service@,
            r.message_sink.identity.team@ == team@,
            r.bandwidth_sink.identity.service@ == service@,
            r.bandwidth_sink.identity.team@ == team@,
            r.series@ == message_series() + bandwidth_series(),
            r.mode@ == self@,
    {
        let (message_sink, mut series) = MessageSink::register(
            MessageOptions::new().topic(topic).consumer_group(consumer_group).service(
                service,
                team,
            ),
        );
        let (bandwidth_sink, mut more) = BandwidthSink::register(
            BandwidthOptions::new().service(service, team),
        );
        series.append(&mut more);
        RealisedMetrics { message_sink, bandwidth_sink, series, mode: self.mode }
    }

    /// The activation as text, for logs.
    pub fn debug_text(&self) -> (r: String)
        ensures
            r@ == match self@ {
                MetricsModel::Serve { addr, path } => serve_listing(
                    foreign::debug_quoted(addr),
                    foreign::debug_quoted(path),
                ),
                MetricsModel::Registry { .. } => "Metrics { mode: \"registry\" }"@,
            },
    {
        match &self.mode {
            Mode::Serve(endpoint) => {
                let addr = quoted(endpoint.addr.as_str());
                let path = quoted(endpoint.path.as_str());
                serve_listing_text(addr.as_str(), path.as_str())
            },
            Mode::Registry(_) => "Metrics { mode: \"registry\" }".to_owned(),
        }
    }
}

/// A quoted address and a quoted path as the text of serve mode.
pub open spec fn serve_listing(addr: Seq<char>, path: Seq<char>) -> Seq<char> {
    "Metrics { mode: \"serve\", addr: "@ + addr + ", path: "@ + path + " }"@
}

/// A quoted address and a quoted path as the text of serve mode.
pub fn serve_listing_text(addr: &str, path: &str) -> (r: String)
    ensures
        r@ == serve_listing(addr@, path@),
{
    let mut r = "Metrics { mode: \"serve\", addr: ".to_owned();
    r.append(addr);
    r.append(", path: ");
    r.append(path);
    r.append(" }");
    r
}

/// Renders the exposition for the application's own HTTP stack. Serve it with
/// the [`OPENMETRICS_CONTENT_TYPE`] content type.
pub struct MetricsHandle {
    slot: Slot,
}

impl View for MetricsHandle {
    type V = Slot;

    closed spec fn view(&self) -> Slot {
        self.slot
    }
}

impl Clone for MetricsHandle {
    fn clone(&self) -> (r: Self)
        ensures
            r@ == self@,
    {
        MetricsHandle { slot: self.slot.clone() }
    }
}

impl MetricsHandle {
    /// The slot in which the registry appears.
    pub fn slot(&self) -> (r: &Slot)
        ensures
            *r == self@,
    {
        &self.slot
    }

    /// The current exposition: what the live registry renders, or nothing
    /// while there is no registry yet.
    pub fn scrape(&self, rendered: Option<String>) -> (r: String)
        ensures
            r@ == match rendered {
                Some(text) => text@,
                None => Seq::<char>::empty(),
            },
    {
        match rendered {
            Some(text) => text,
            None => String::new(),
        }
    }

    /// The handle as text, for logs: whether there is a registry behind it.
    pub fn debug_text(&self, realised: bool) -> (r: String)
        ensures
            r@ == if realised {
                "MetricsHandle { realised: true }"@
            } else {
                "MetricsHandle { realised: false }"@
            },
    {
        if realised {
            "MetricsHandle { realised: true }".to_owned()
        } else {
            "MetricsHandle { realised: false }".to_owned()
        }
    }
}

/// The start of the error text for an endpoint that cannot be bound: it names
/// the address.
pub open spec fn bind_failure_start(addr: Seq<char>) -> Seq<char> {
    "metrics endpoint failed to bind "@ + addr + ": "@
}

/// The error text for an endpoint that cannot be bound.
pub fn bind_failure_text(addr: &str, error: &str) -> (r: String)
    ensures
        r@ == bind_failure_start(addr@) + error@,
{
    let mut r = "metrics endpoint failed to bind ".to_owned();
    r.append(addr);
    r.append(": ");
    r.append(error);
    r
}

// ---------------------------------------------------------------------------
// Scrape requests
// ---------------------------------------------------------------------------

/// How a request to the scrape endpoint is answered.
#[derive(Debug, Clone, Copy, PartialEq, Eq, Structural)]
pub enum ScrapeReply {
    /// With the exposition.
    Exposition,
    /// The path is another one.
    NotFound,
    /// The method is not GET.
    MethodNotAllowed,
}

/// An HTTP answer.
#[derive(Debug, Clone, PartialEq, Eq)]
pub struct Answer {
    /// The status.
    pub status: u16,
    /// The content type of the body, when there is one.
    pub content_type: Option<&'static str>,
    /// The body.
    pub body: String,
}

impl ScrapeReply {
    /// The HTTP status.
    pub open spec fn spec_status(self) -> u16 {
        match self {
            ScrapeReply::Exposition => 200,
            ScrapeReply::NotFound => 404,
            ScrapeReply::MethodNotAllowed => 405,
        }
    }

    /// The HTTP status.
    pub fn status(self) -> (r: u16)
        ensures
            r == self.spec_status(),
    {
        match self {
            ScrapeReply::Exposition => 200,
            ScrapeReply::NotFound => 404,
            ScrapeReply::MethodNotAllowed => 405,
        }
    }

    /// The answer that is sent. Only the exposition has a body and a content
    /// type.
    pub fn answer(self, exposition: String) -> (r: Answer)
        ensures
            r.status == self.spec_status(),
            match self {
                ScrapeReply::Exposition => r.body@ == exposition@ && r.content_type == Some(
                    OPENMETRICS_CONTENT_TYPE,
                ),
                _ => r.body@.len() == 0 && r.content_type is None,
            },
    {
        let status: u16 = self.status();
        match self {
            ScrapeReply::Exposition => Answer {
                status,
                content_type: Some(OPENMETRICS_CONTENT_TYPE),
                body: exposition,
            },
            _ => Answer { status, content_type: None, body: String::new() },
        }
    }
}

/// The part of a request target before its query string.
pub open spec fn before_query(url: Seq<char>) -> Seq<char>
    decreases url.len(),
{
    if url.len() == 0 || url[0] == '?' {
        seq![]
    } else {
        seq![url[0]] + before_query(url.drop_first())
    }
}

proof fn before_query_is_a_prefix(url: Seq<char>, n: int)
    requires
        0 <= n <= url.len(),
        forall|i: int| 0 <= i < n ==> #[trigger] url[i] != '?',
        n == url.len() || url[n] == '?',
    ensures
        before_query(url) == url.take(n),
    decreases n,
{
    if n > 0 {
        let rest = url.drop_first();
        assert forall|i: int| 0 <= i < n - 1 implies #[trigger] rest[i] != '?' by {
            assert(rest[i] == url[i + 1]);
        }
        before_query_is_a_prefix(rest, n - 1);
        assert(seq![url[0]] + rest.take(n - 1) =~= url.take(n));
    } else {
        assert(url.take(0) =~= seq![]);
    }
}

fn request_path(url: &str) -> (r: String)
    ensures
        r@ == before_query(url@),
{
    let chars = text::characters(url);
    let mut r = String::new();
    let mut i: usize = 0;
    while i < chars.len() && chars[i] != '?'
        invariant
            i <= chars.len(),
            chars@ == url@,
            r@ == url@.take(i as int),
            forall|j: int| 0 <= j < i ==> #[trigger] url@[j] != '?',
        decreases chars.len() - i,
    {
        r.push(chars[i]);
        assert(r@ =~= url@.take(i + 1));
        i = i + 1;
    }
    proof {
        before_query_is_a_prefix(url@, i as int);
    }
    r
}

/// How a request is answered: the exposition for a GET of the path, whatever
/// its query string; another method on the path is not allowed, and there is
/// nothing at any other path.
pub fn route(is_get: bool, url: &str, path: &str) -> (r: ScrapeReply)
    ensures
        r == if before_query(url@) != path@ {
            ScrapeReply::NotFound
        } else if is_get {
            ScrapeReply::Exposition
        } else {
            ScrapeReply::MethodNotAllowed
        },
{
    let requested = request_path(url);
    if !same_text(requested.as_str(), path) {
        ScrapeReply::NotFound
    } else if is_get {
        ScrapeReply::Exposition
    } else {
        ScrapeReply::MethodNotAllowed
    }
}

// ---------------------------------------------------------------------------
// Laws
// ---------------------------------------------------------------------------

/// What the updates add to a counter under a label set.
pub open spec fn total(updates: Seq<UpdateModel>, series: Series, labels: Seq<Pair>) -> nat
    decreases updates.len(),
{
    if updates.len() == 0 {
        0
    } else {
        total(updates.drop_last(), series, labels) + match updates.last() {
            UpdateModel::Increase { series: s, labels: l, by } if s == series && l == labels => {
                by as nat
            },
            _ => 0,
        }
    }
}

/// Counters accumulate: two lists of updates add what each adds alone.
pub proof fn counters_accumulate(
    a: Seq<UpdateModel>,
    b: Seq<UpdateModel>,
    series: Series,
    labels: Seq<Pair>,
)
    ensures
        total(a + b, series, labels) == total(a, series, labels) + total(b, series, labels),
    decreases b.len(),
{
    if b.len() == 0 {
        assert(a + b =~= a);
    } else {
        counters_accumulate(a, b.drop_last(), series, labels);
        assert((a + b).drop_last() =~= a + b.drop_last());
        assert((a + b).last() == b.last());
    }
}

proof fn total_of_one(u: UpdateModel, series: Series, labels: Seq<Pair>)
    ensures
        total(seq![u], series, labels) == match u {
            UpdateModel::Increase { series: s, labels: l, by } if s == series && l == labels => {
                by as nat
            },
            _ => 0,
        },
{
    assert(seq![u].drop_last() =~= seq![]);
    assert(total(seq![], series, labels) == 0);
    assert(seq![u].last() == u);
}

proof fn total_of_tick(
    s: Series,
    l: Seq<Pair>,
    condition: bool,
    series: Series,
    labels: Seq<Pair>,
)
    ensures
        total(tick(s, l, condition), series, labels) == if condition && s == series && l
            == labels {
            1nat
        } else {
            0nat
        },
{
    total_of_one(UpdateModel::Increase { series: s, labels: l, by: 1 }, series, labels);
}

proof fn total_of_growth(s: Series, l: Seq<Pair>, by: i64, series: Series, labels: Seq<Pair>)
    ensures
        total(growth(s, l, by), series, labels) == if by > 0 && s == series && l == labels {
            by as nat
        } else {
            0nat
        },
{
    if by > 0 {
        total_of_one(UpdateModel::Increase { series: s, labels: l, by: by as u64 }, series, labels);
    }
}

proof fn total_of_observation(
    s: Series,
    l: Seq<Pair>,
    nanos: int,
    series: Series,
    labels: Seq<Pair>,
)
    ensures
        total(observation(s, l, nanos), series, labels) == 0,
{
    total_of_one(UpdateModel::Observe { series: s, labels: l, nanos: nanos as u64 }, series, labels);
}

/// How many of the conditions that a counter stands for a packet meets: the
/// processed counter counts every packet, the others those with their bit.
pub open spec fn counted(series: Series, m: MessageMetrics) -> bool {
    match series {
        Series::Processed => true,
        Series::Errored => m.traits & 1 != 0,
        Series::Panicked => m.traits & 2 != 0,
        Series::DeadLettered => m.traits & 4 != 0,
        Series::Duplicate => m.traits & 16 != 0,
        Series::UsedOverflow => m.traits & 32 != 0,
        _ => false,
    }
}

/// A packet adds one to a counter of its own partition when the counter's
/// condition holds, and nothing to any other counter.
pub proof fn packet_counts_once(
    sink: MessageSink,
    m: MessageMetrics,
    series: Series,
    partition: i32,
)
    ensures
        total(sink.updates(m), series, sink.label_texts(partition)) == if m.partition == partition
            && counted(series, m) {
            1nat
        } else {
            0nat
        },
{
    let l = sink.label_texts(m.partition);
    let labels = sink.label_texts(partition);
    if l == labels {
        assert(l[4] == partition_label(m.partition));
        assert(labels[4] == partition_label(partition));
        text::signed_decimal_is_injective(m.partition as int, partition as int);
    }
    let a = tick(Series::Processed, l, true);
    let b = tick(Series::Errored, l, m.traits & 1 != 0);
    let c = tick(Series::Panicked, l, m.traits & 2 != 0);
    let d = tick(Series::DeadLettered, l, m.traits & 4 != 0);
    let e = tick(Series::Duplicate, l, m.traits & 16 != 0);
    let f = tick(Series::UsedOverflow, l, m.traits & 32 != 0);
    let g = UpdateModel::Gauge { series: Series::QueueDepth, labels: l, value: m.queue_depth as i64 };
    let h = UpdateModel::Gauge { series: Series::CurrentOffset, labels: l, value: m.offset };
    let i = observation(Series::ProcessDuration, l, m.process_duration_ns as int);
    let j = observation(Series::DeadLetterDuration, l, m.deadletter_duration_ns as int);
    let k = observation(Series::QueueWaitDuration, l, queue_wait(m));
    total_of_tick(Series::Processed, l, true, series, labels);
    total_of_tick(Series::Errored, l, m.traits & 1 != 0, series, labels);
    total_of_tick(Series::Panicked, l, m.traits & 2 != 0, series, labels);
    total_of_tick(Series::DeadLettered, l, m.traits & 4 != 0, series, labels);
    total_of_tick(Series::Duplicate, l, m.traits & 16 != 0, series, labels);
    total_of_tick(Series::UsedOverflow, l, m.traits & 32 != 0, series, labels);
    total_of_one(g, series, labels);
    total_of_one(h, series, labels);
    assert(seq![g, h] =~= seq![g] + seq![h]);
    total_of_observation(
        Series::ProcessDuration,
        l,
        m.process_duration_ns as int,
        series,
        labels,
    );
    total_of_observation(
        Series::DeadLetterDuration,
        l,
        m.deadletter_duration_ns as int,
        series,
        labels,
    );
    total_of_observation(Series::QueueWaitDuration, l, queue_wait(m), series, labels);
    counters_accumulate(seq![g], seq![h], series, labels);
    counters_accumulate(a, b, series, labels);
    counters_accumulate(a + b, c, series, labels);
    counters_accumulate(a + b + c, d, series, labels);
    counters_accumulate(a + b + c + d, e, series, labels);
    counters_accumulate(a + b + c + d + e, f, series, labels);
    counters_accumulate(i, j, series, labels);
    counters_accumulate(i + j, k, series, labels);
    counters_accumulate(sink.counts(m), sink.gauges(m), series, labels);
    counters_accumulate(sink.counts(m) + sink.gauges(m), sink.times(m), series, labels);
}

/// All the updates that a run of packets makes.
pub open spec fn run_updates(sink: MessageSink, packets: Seq<MessageMetrics>) -> Seq<UpdateModel>
    decreases packets.len(),
{
    if packets.len() == 0 {
        seq![]
    } else {
        run_updates(sink, packets.drop_last()) + sink.updates(packets.last())
    }
}

/// How many packets of a run belong to a partition and meet a counter's
/// condition.
pub open spec fn occurrences(packets: Seq<MessageMetrics>, series: Series, partition: i32) -> nat
    decreases packets.len(),
{
    if packets.len() == 0 {
        0
    } else {
        occurrences(packets.drop_last(), series, partition) + if packets.last().partition
            == partition && counted(series, packets.last()) {
            1nat
        } else {
            0nat
        }
    }
}

/// Over a run of packets every counter of a partition holds exactly the number
/// of packets that meet its condition; the processed counter holds the number
/// of messages.
pub proof fn counters_hold_the_number_of_packets(
    sink: MessageSink,
    packets: Seq<MessageMetrics>,
    series: Series,
    partition: i32,
)
    ensures
        total(run_updates(sink, packets), series, sink.label_texts(partition)) == occurrences(
            packets,
            series,
            partition,
        ),
    decreases packets.len(),
{
    if packets.len() > 0 {
        counters_hold_the_number_of_packets(sink, packets.drop_last(), series, partition);
        packet_counts_once(sink, packets.last(), series, partition);
        counters_accumulate(
            run_updates(sink, packets.drop_last()),
            sink.updates(packets.last()),
            series,
            sink.label_texts(partition),
        );
    }
}

/// Only five framework bits show in the metrics: two packets that differ in
/// any other trait bits, application bits among them, make the same updates.
pub proof fn other_trait_bits_show_nowhere(sink: MessageSink, m: MessageMetrics, traits: u64)
    requires
        traits & 0x37 == m.traits & 0x37,
    ensures
        sink.updates(MessageMetrics { traits, ..m }) == sink.updates(m),
{
    let t = m.traits;
    assert(traits & 0x37 == t & 0x37 ==> ((traits & 1 != 0) == (t & 1 != 0)) && ((traits & 2 != 0)
        == (t & 2 != 0)) && ((traits & 4 != 0) == (t & 4 != 0)) && ((traits & 16 != 0) == (t & 16
        != 0)) && ((traits & 32 != 0) == (t & 32 != 0))) by (bit_vector);
}

/// The series counts compressed or uncompressed bytes, and has a compression
/// label.
pub open spec fn is_compression_counter(series: Series) -> bool {
    series == Series::CompressedBytes || series == Series::UncompressedBytes
}

/// The series is one of the five per-partition bandwidth counters.
pub open spec fn is_partition_counter(series: Series) -> bool {
    is_compression_counter(series) || series == Series::ReceivedBytes || series
        == Series::TransmittedBytes || series == Series::ReceivedMessages
}

/// The field of a packet's partition that a per-partition counter grows by.
pub open spec fn delta(series: Series, p: PartitionBandwidth) -> i64 {
    match series {
        Series::ReceivedBytes => p.received_bytes,
        Series::TransmittedBytes => p.transmitted_bytes,
        Series::ReceivedMessages => p.received_message_count,
        Series::CompressedBytes => p.compressed_bytes,
        Series::UncompressedBytes => p.uncompressed_bytes,
        _ => 0,
    }
}

/// The partition's field goes to the counter of this partition and, where the
/// counter has that label, of this compression.
pub open spec fn belongs(
    p: PartitionBandwidth,
    series: Series,
    partition: i32,
    compression: Seq<char>,
) -> bool {
    p.id == partition && (is_compression_counter(series) ==> compression_label(p).1 == compression)
}

/// The sum of the positive deltas that belong to a counter.
pub open spec fn positive_sum(
    partitions: Seq<PartitionBandwidth>,
    series: Series,
    partition: i32,
    compression: Seq<char>,
) -> nat
    decreases partitions.len(),
{
    if partitions.len() == 0 {
        0
    } else {
        positive_sum(partitions.drop_last(), series, partition, compression) + if belongs(
            partitions.last(),
            series,
            partition,
            compression,
        ) && delta(series, partitions.last()) > 0 {
            delta(series, partitions.last()) as nat
        } else {
            0nat
        }
    }
}

/// The labels of a per-partition counter.
pub open spec fn counter_labels(
    topology: Seq<Pair>,
    series: Series,
    partition: i32,
    compression: Seq<char>,
) -> Seq<Pair> {
    if is_compression_counter(series) {
        topology.push(partition_label(partition)).push(("compression"@, compression))
    } else {
        topology.push(partition_label(partition))
    }
}

proof fn counter_labels_tell_partitions_apart(
    topology: Seq<Pair>,
    p: PartitionBandwidth,
    series: Series,
    partition: i32,
    compression: Seq<char>,
)
    ensures
        ({
            let own = topology.push(partition_label(p.id));
            let labels = counter_labels(topology, series, partition, compression);
            let own_labels = if is_compression_counter(series) {
                own.push(compression_label(p))
            } else {
                own
            };
            own_labels == labels <==> belongs(p, series, partition, compression)
        }),
{
    let own = topology.push(partition_label(p.id));
    let labels = counter_labels(topology, series, partition, compression);
    let own_labels = if is_compression_counter(series) {
        own.push(compression_label(p))
    } else {
        own
    };
    let n = topology.len() as int;
    assert(own_labels[n] == partition_label(p.id));
    assert(labels[n] == partition_label(partition));
    if is_compression_counter(series) {
        assert(own_labels[n + 1] == compression_label(p));
        assert(labels[n + 1] == ("compression"@, compression));
    }
    if own_labels == labels {
        text::signed_decimal_is_injective(p.id as int, partition as int);
    }
}

/// A bandwidth packet adds to each of a partition's counters exactly the
/// positive deltas that it holds for it.
pub proof fn partition_counters_grow_by_the_deltas(
    sink: BandwidthSink,
    m: BandwidthMetrics,
    partitions: Seq<PartitionBandwidth>,
    series: Series,
    partition: i32,
    compression: Seq<char>,
)
    requires
        is_partition_counter(series),
    ensures
        total(
            sink.partition_updates(m, partitions),
            series,
            counter_labels(sink.topology_labels(m), series, partition, compression),
        ) == positive_sum(partitions, series, partition, compression),
    decreases partitions.len(),
{
    if partitions.len() > 0 {
        let p = partitions.last();
        let topology = sink.topology_labels(m);
        let labels = counter_labels(topology, series, partition, compression);
        let l = sink.partition_labels(m, p.id);
        let cl = l.push(compression_label(p));
        partition_counters_grow_by_the_deltas(
            sink,
            m,
            partitions.drop_last(),
            series,
            partition,
            compression,
        );
        counter_labels_tell_partitions_apart(topology, p, series, partition, compression);
        let a = growth(Series::ReceivedBytes, l, p.received_bytes);
        let b = growth(Series::TransmittedBytes, l, p.transmitted_bytes);
        let c = growth(Series::ReceivedMessages, l, p.received_message_count);
        let d = growth(Series::CompressedBytes, cl, p.compressed_bytes);
        let e = growth(Series::UncompressedBytes, cl, p.uncompressed_bytes);
        total_of_growth(Series::ReceivedBytes, l, p.received_bytes, series, labels);
        total_of_growth(Series::TransmittedBytes, l, p.transmitted_bytes, series, labels);
        total_of_growth(Series::ReceivedMessages, l, p.received_message_count, series, labels);
        total_of_growth(Series::CompressedBytes, cl, p.compressed_bytes, series, labels);
        total_of_growth(Series::UncompressedBytes, cl, p.uncompressed_bytes, series, labels);
        counters_accumulate(a, b, series, labels);
        counters_accumulate(a + b, c, series, labels);
        counters_accumulate(a + b + c, d, series, labels);
        counters_accumulate(a + b + c + d, e, series, labels);
        counters_accumulate(
            sink.partition_updates(m, partitions.drop_last()),
            sink.partition_update(m, p),
            series,
            labels,
        );
    }
}

/// Nothing is counted or observed that is not positive.
pub open spec fn is_positive(u: UpdateModel) -> bool {
    match u {
        UpdateModel::Increase { by, .. } => by > 0,
        UpdateModel::Observe { nanos, .. } => nanos > 0,
        _ => true,
    }
}

/// A packet counts and observes only positive amounts: times that are zero or
/// negative leave no trace.
pub proof fn only_positive_amounts_are_recorded(sink: MessageSink, m: MessageMetrics, i: int)
    requires
        0 <= i < sink.updates(m).len(),
    ensures
        is_positive(sink.updates(m)[i]),
{
}

/// The series that an update goes to.
pub open spec fn series_of(u: UpdateModel) -> Series {
    match u {
        UpdateModel::Increase { series, .. } => series,
        UpdateModel::Gauge { series, .. } => series,
        UpdateModel::GaugeMillis { series, .. } => series,
        UpdateModel::Observe { series, .. } => series,
    }
}

/// The labels of an update.
pub open spec fn labels_of(u: UpdateModel) -> Seq<Pair> {
    match u {
        UpdateModel::Increase { labels, .. } => labels,
        UpdateModel::Gauge { labels, .. } => labels,
        UpdateModel::GaugeMillis { labels, .. } => labels,
        UpdateModel::Observe { labels, .. } => labels,
    }
}

/// The update is one that its series can take.
pub open spec fn suits_its_series(u: UpdateModel) -> bool {
    match u {
        UpdateModel::Increase { series, .. } => series.spec_kind() is Counter,
        UpdateModel::Gauge { series, .. } => series.spec_kind() is Gauge,
        UpdateModel::GaugeMillis { series, .. } => series.spec_kind() is SecondsGauge,
        UpdateModel::Observe { series, .. } => series.spec_kind() is Histogram,
    }
}

/// Every series is registered by exactly one of the two sinks.
pub proof fn every_series_is_registered_once(s: Series)
    ensures
        message_series().contains(s) <==> !s.is_bandwidth(),
        bandwidth_series().contains(s) <==> s.is_bandwidth(),
        (message_series() + bandwidth_series()).no_duplicates(),
{
    let m = message_series();
    let b = bandwidth_series();
    assert(m[0] == Series::Processed && m[1] == Series::Errored && m[2] == Series::Panicked);
    assert(m[3] == Series::DeadLettered && m[4] == Series::Duplicate);
    assert(m[5] == Series::UsedOverflow && m[6] == Series::QueueDepth);
    assert(m[7] == Series::CurrentOffset && m[8] == Series::ProcessDuration);
    assert(m[9] == Series::DeadLetterDuration && m[10] == Series::QueueWaitDuration);
    assert(b[0] == Series::ReceivedBytes && b[1] == Series::TransmittedBytes);
    assert(b[2] == Series::ReceivedMessages && b[3] == Series::CompressedBytes);
    assert(b[4] == Series::UncompressedBytes && b[5] == Series::BrokerCount);
    assert(b[6] == Series::PartitionCount && b[7] == Series::StatsInterval);
    assert(b[8] == Series::LastCollection && b[9] == Series::BrokerInfo);
}

/// No two series have the same full name.
pub proof fn series_names_are_unique(a: Series, b: Series)
    requires
        a.is_bandwidth() == b.is_bandwidth(),
        a.spec_name() == b.spec_name(),
    ensures
        a == b,
{
    reveal_strlit("processed");
    assert("processed"@.len() == 9);
    reveal_strlit("errored");
    assert("errored"@.len() == 7);
    reveal_strlit("panicked");
    assert("panicked"@.len() == 8);
    reveal_strlit("dead_lettered");
    assert("dead_lettered"@.len() == 13);
    reveal_strlit("duplicate");
    assert("duplicate"@.len() == 9);
    reveal_strlit("used_overflow");
    assert("used_overflow"@.len() == 13);
    reveal_strlit("queue_depth");
    assert("queue_depth"@.len() == 11);
    reveal_strlit("current_offset");
    assert("current_offset"@.len() == 14);
    reveal_strlit("process_duration_seconds");
    assert("process_duration_seconds"@.len() == 24);
    reveal_strlit("dead_letter_duration_seconds");
    assert("dead_letter_duration_seconds"@.len() == 28);
    reveal_strlit("queue_wait_duration_seconds");
    assert("queue_wait_duration_seconds"@.len() == 27);
    reveal_strlit("received_bytes");
    assert("received_bytes"@.len() == 14);
    reveal_strlit("transmitted_bytes");
    assert("transmitted_bytes"@.len() == 17);
    reveal_strlit("received_messages");
    assert("received_messages"@.len() == 17);
    reveal_strlit("compressed_bytes");
    assert("compressed_bytes"@.len() == 16);
    reveal_strlit("uncompressed_bytes");
    assert("uncompressed_bytes"@.len() == 18);
    reveal_strlit("broker_count");
    assert("broker_count"@.len() == 12);
    reveal_strlit("partition_count");
    assert("partition_count"@.len() == 15);
    reveal_strlit("stats_interval_seconds");
    assert("stats_interval_seconds"@.len() == 22);
    reveal_strlit("last_collection_timestamp_seconds");
    assert("last_collection_timestamp_seconds"@.len() == 33);
    reveal_strlit("broker_info");
    assert("broker_info"@.len() == 11);
    assert("processed"@[0] == 'p');
    assert("duplicate"@[0] == 'd');
    assert("dead_lettered"@[0] == 'd');
    assert("used_overflow"@[0] == 'u');
    assert("transmitted_bytes"@[0] == 't');
    assert("received_messages"@[0] == 'r');
}

/// The updates belong to the per-message series and have these labels.
spec fn are_message_updates(us: Seq<UpdateModel>, labels: Seq<Pair>) -> bool {
    forall|i: int|
        0 <= i < us.len() ==> suits_its_series(#[trigger] us[i]) && !series_of(us[i]).is_bandwidth()
            && labels_of(us[i]) == labels
}

proof fn both_are_message_updates(a: Seq<UpdateModel>, b: Seq<UpdateModel>, labels: Seq<Pair>)
    requires
        are_message_updates(a, labels),
        are_message_updates(b, labels),
    ensures
        are_message_updates(a + b, labels),
{
    assert forall|i: int| 0 <= i < (a + b).len() implies suits_its_series(#[trigger] (a + b)[i])
        && !series_of((a + b)[i]).is_bandwidth() && labels_of((a + b)[i]) == labels by {
        assert((a + b)[i] == if i < a.len() {
            a[i]
        } else {
            b[i - a.len()]
        });
    }
}

/// A packet's updates all go to registered per-message series, each of the
/// right kind, under the one label set of the packet's partition.
pub proof fn message_updates_suit_their_series(sink: MessageSink, m: MessageMetrics, i: int)
    requires
        0 <= i < sink.updates(m).len(),
    ensures
        ({
            let u = sink.updates(m)[i];
            &&& suits_its_series(u)
            &&& message_series().contains(series_of(u))
            &&& labels_of(u) == sink.label_texts(m.partition)
        }),
{
    let l = sink.label_texts(m.partition);
    let a = tick(Series::Processed, l, true);
    let b = tick(Series::Errored, l, m.traits & 1 != 0);
    let c = tick(Series::Panicked, l, m.traits & 2 != 0);
    let d = tick(Series::DeadLettered, l, m.traits & 4 != 0);
    let e = tick(Series::Duplicate, l, m.traits & 16 != 0);
    let f = tick(Series::UsedOverflow, l, m.traits & 32 != 0);
    let x = observation(Series::ProcessDuration, l, m.process_duration_ns as int);
    let y = observation(Series::DeadLetterDuration, l, m.deadletter_duration_ns as int);
    let z = observation(Series::QueueWaitDuration, l, queue_wait(m));
    both_are_message_updates(a, b, l);
    both_are_message_updates(a + b, c, l);
    both_are_message_updates(a + b + c, d, l);
    both_are_message_updates(a + b + c + d, e, l);
    both_are_message_updates(a + b + c + d + e, f, l);
    both_are_message_updates(x, y, l);
    both_are_message_updates(x + y, z, l);
    both_are_message_updates(sink.counts(m), sink.gauges(m), l);
    both_are_message_updates(sink.counts(m) + sink.gauges(m), sink.times(m), l);
    every_series_is_registered_once(series_of(sink.updates(m)[i]));
}

/// Both gauges are set by every packet, to zero as well.
pub proof fn gauges_are_set_by_every_packet(sink: MessageSink, m: MessageMetrics)
    ensures
        ({
            let labels = sink.label_texts(m.partition);
            &&& sink.updates(m).contains(
                UpdateModel::Gauge {
                    series: Series::QueueDepth,
                    labels,
                    value: m.queue_depth as i64,
                },
            )
            &&& sink.updates(m).contains(
                UpdateModel::Gauge { series: Series::CurrentOffset, labels, value: m.offset },
            )
        }),
{
    let labels = sink.label_texts(m.partition);
    let at = sink.counts(m).len() as int;
    assert(sink.updates(m)[at] == UpdateModel::Gauge {
        series: Series::QueueDepth,
        labels,
        value: m.queue_depth as i64,
    });
    assert(sink.updates(m)[at + 1] == UpdateModel::Gauge {
        series: Series::CurrentOffset,
        labels,
        value: m.offset,
    });
}

/// The update belongs to a bandwidth packet of this consumer.
pub open spec fn is_bandwidth_update(
    sink: BandwidthSink,
    m: BandwidthMetrics,
    u: UpdateModel,
) -> bool {
    &&& suits_its_series(u)
    &&& series_of(u).is_bandwidth()
    &&& labels_of(u).len() >= 4
    &&& labels_of(u).take(4) == sink.topology_labels(m)
    &&& is_positive(u)
}

proof fn partition_updates_suit(
    sink: BandwidthSink,
    m: BandwidthMetrics,
    partitions: Seq<PartitionBandwidth>,
    i: int,
)
    requires
        0 <= i < sink.partition_updates(m, partitions).len(),
    ensures
        is_bandwidth_update(sink, m, sink.partition_updates(m, partitions)[i]),
    decreases partitions.len(),
{
    let earlier = sink.partition_updates(m, partitions.drop_last());
    if i < earlier.len() {
        partition_updates_suit(sink, m, partitions.drop_last(), i);
    } else {
        let p = partitions.last();
        let labels = sink.partition_labels(m, p.id);
        let u = sink.partition_update(m, p)[i - earlier.len()];
        assert(labels.take(4) =~= sink.topology_labels(m));
        assert(labels.push(compression_label(p)).take(4) =~= sink.topology_labels(m));
        assert(labels_of(u) == labels || labels_of(u) == labels.push(compression_label(p)));
    }
}

/// A bandwidth packet's updates all go to registered bandwidth series, each of
/// the right kind, and are labelled with topic, consumer group, service and
/// team first; counters only ever grow.
pub proof fn bandwidth_updates_suit_their_series(
    sink: BandwidthSink,
    m: BandwidthMetrics,
    i: int,
)
    requires
        0 <= i < sink.updates(m).len(),
    ensures
        is_bandwidth_update(sink, m, sink.updates(m)[i]),
        bandwidth_series().contains(series_of(sink.updates(m)[i])),
{
    let topology = sink.topology_updates(m);
    let brokers = sink.broker_updates(m, m.brokers@);
    let labels = sink.topology_labels(m);
    let u = sink.updates(m)[i];
    assert(labels.take(4) =~= labels);
    if i < topology.len() {
        assert(u == topology[i]);
    } else if i < topology.len() + brokers.len() {
        assert(u == sink.broker_update(m, m.brokers@[i - topology.len()]));
        assert(labels_of(u).take(4) =~= labels);
    } else {
        partition_updates_suit(
            sink,
            m,
            m.partitions@,
            i - topology.len() - brokers.len(),
        );
    }
    every_series_is_registered_once(series_of(u));
}

/// Every broker of a packet has its info series set to one.
pub proof fn every_broker_is_shown(sink: BandwidthSink, m: BandwidthMetrics, i: int)
    requires
        0 <= i < m.brokers@.len(),
    ensures
        sink.updates(m).contains(sink.broker_update(m, m.brokers@[i])),
{
    let at = sink.topology_updates(m).len() + i;
    assert(sink.updates(m)[at] == sink.broker_update(m, m.brokers@[i]));
}

/// The catalogue of the series: to which telemetry each belongs, its name, what
/// it records, and its help text.
pub proof fn series_are_as_catalogued(s: Series)
    ensures
        (s.is_bandwidth(), s.spec_name(), s.spec_kind(), s.spec_help()) == (match s {
            Series::Processed => (
                false,
                "processed"@,
                SeriesKind::Counter,
                "Total number of messages processed"@,
            ),
            Series::Errored => (
                false,
                "errored"@,
                SeriesKind::Counter,
                "Total number of messages that resulted in processing errors"@,
            ),
            Series::Panicked => (
                false,
                "panicked"@,
                SeriesKind::Counter,
                "Total number of messages where processing panicked"@,
            ),
            Series::DeadLettered => (
                false,
                "dead_lettered"@,
                SeriesKind::Counter,
                "Total number of messages sent to dead letter queue"@,
            ),
            Series::Duplicate => (
                false,
                "duplicate"@,
                SeriesKind::Counter,
                "Total number of duplicate messages detected"@,
            ),
            Series::UsedOverflow => (
                false,
                "used_overflow"@,
                SeriesKind::Counter,
                "Total messages that used guard channel overflow during worker acquisition"@,
            ),
            Series::QueueDepth => (
                false,
                "queue_depth"@,
                SeriesKind::Gauge,
                "Current queue depth for buffering implementations"@,
            ),
            Series::CurrentOffset => (
                false,
                "current_offset"@,
                SeriesKind::Gauge,
                "Current offset being processed per partition"@,
            ),
            Series::ProcessDuration => (
                false,
                "process_duration_seconds"@,
                SeriesKind::Histogram { first_micros: 1000, buckets: 15 },
                "Time spent processing messages"@,
            ),
            Series::DeadLetterDuration => (
                false,
                "dead_letter_duration_seconds"@,
                SeriesKind::Histogram { first_micros: 1000, buckets: 15 },
                "Time spent writing to dead letter queue"@,
            ),
            Series::QueueWaitDuration => (
                false,
                "queue_wait_duration_seconds"@,
                SeriesKind::Histogram { first_micros: 100, buckets: 18 },
                "Time messages spent waiting in queue before processing"@,
            ),
            Series::ReceivedBytes => (
                true,
                "received_bytes"@,
                SeriesKind::Counter,
                "Total bytes received by llingr consumer instances"@,
            ),
            Series::TransmittedBytes => (
                true,
                "transmitted_bytes"@,
                SeriesKind::Counter,
                "Total bytes transmitted by llingr consumer instances"@,
            ),
            Series::ReceivedMessages => (
                true,
                "received_messages"@,
                SeriesKind::Counter,
                "Total messages received by llingr consumer instances"@,
            ),
            Series::CompressedBytes => (
                true,
                "compressed_bytes"@,
                SeriesKind::Counter,
                "Total compressed (wire) bytes received; zero when compression visibility is unavailable"@,
            ),
            Series::UncompressedBytes => (
                true,
                "uncompressed_bytes"@,
                SeriesKind::Counter,
                "Total uncompressed (decompressed) bytes received; zero when compression visibility is unavailable"@,
            ),
            Series::BrokerCount => (
                true,
                "broker_count"@,
                SeriesKind::Gauge,
                "Number of brokers in the cluster at last collection"@,
            ),
            Series::PartitionCount => (
                true,
                "partition_count"@,
                SeriesKind::Gauge,
                "Number of assigned partitions at last collection"@,
            ),
            Series::StatsInterval => (
                true,
                "stats_interval_seconds"@,
                SeriesKind::SecondsGauge,
                "Configured collection cadence in seconds"@,
            ),
            Series::LastCollection => (
                true,
                "last_collection_timestamp_seconds"@,
                SeriesKind::Gauge,
                "Unix timestamp of the most recent bandwidth collection"@,
            ),
            Series::BrokerInfo => (
                true,
                "broker_info"@,
                SeriesKind::Gauge,
                "Broker topology at last collection (info metric, always 1.0)"@,
            ),
        }),
        NAMESPACE@ == "llingr"@,
        OPENMETRICS_CONTENT_TYPE@
            == "application/openmetrics-text; version=1.0.0; charset=utf-8"@,
        message_series().len() == 11,
        bandwidth_series().len() == 10,
{
}

/// The text of a label list tells the consumer: its topic, its group, its
/// service and its team, in this order.
pub proof fn identity_labels_name_the_consumer(
    topic: Seq<char>,
    group: Seq<char>,
    service: Seq<char>,
    team: Seq<char>,
)
    ensures
        ({
            let labels = identity_labels(topic, group, service, team);
            &&& labels.len() == 4
            &&& labels[0] == ("topic"@, topic)
            &&& labels[1] == ("consumer_group"@, group)
            &&& labels[2] == ("service"@, service)
            &&& labels[3] == ("team"@, team)
        }),
{
}

/// The label of a partition is read as the partition's number.
pub proof fn partition_label_is_the_number(partition: i32)
    ensures
        partition_label(partition).0 == "partition"@,
        text::whole_number_in(partition_label(partition).1) == Some(partition as int),
{
    text::signed_decimal_stands_for_its_number(partition as int);
}

/// A message's series are labelled with the sink's own identity and with the
/// message's partition.
pub proof fn message_labels_name_consumer_and_partition(sink: MessageSink, partition: i32)
    ensures
        ({
            let labels = sink.label_texts(partition);
            &&& labels.len() == 5
            &&& labels[0] == ("topic"@, sink.identity.topic@)
            &&& labels[1] == ("consumer_group"@, sink.identity.consumer_group@)
            &&& labels[2] == ("service"@, sink.identity.service@)
            &&& labels[3] == ("team"@, sink.identity.team@)
            &&& labels[4].0 == "partition"@
            &&& text::whole_number_in(labels[4].1) == Some(partition as int)
        }),
{
    partition_label_is_the_number(partition);
}

/// The bandwidth series are labelled with the packet's topic and group and with
/// the sink's service and team; those of a partition with its number too, and
/// those of its compression with the algorithm, or `unknown` where the packet
/// names none.
pub proof fn bandwidth_labels_name_consumer_and_partition(
    sink: BandwidthSink,
    m: BandwidthMetrics,
    p: PartitionBandwidth,
    series: Series,
    partition: i32,
    compression: Seq<char>,
)
    ensures
        ({
            let labels = sink.topology_labels(m);
            &&& labels.len() == 4
            &&& labels[0] == ("topic"@, m.topic@)
            &&& labels[1] == ("consumer_group"@, m.consumer_group@)
            &&& labels[2] == ("service"@, sink.identity.service@)
            &&& labels[3] == ("team"@, sink.identity.team@)
        }),
        ({
            let labels = sink.partition_labels(m, partition);
            &&& labels.len() == 5
            &&& labels.take(4) == sink.topology_labels(m)
            &&& labels[4].0 == "partition"@
            &&& text::whole_number_in(labels[4].1) == Some(partition as int)
        }),
        compression_label(p).0 == "compression"@,
        p.compression@.len() == 0 ==> compression_label(p).1 == "unknown"@,
        p.compression@.len() > 0 ==> compression_label(p).1 == p.compression@,
        ({
            let labels = counter_labels(sink.topology_labels(m), series, partition, compression);
            let compressed = series == Series::CompressedBytes || series
                == Series::UncompressedBytes;
            &&& labels.len() == if compressed {
                6nat
            } else {
                5nat
            }
            &&& labels.take(5) == sink.partition_labels(m, partition)
            &&& compressed ==> labels[5] == ("compression"@, compression)
        }),
{
    partition_label_is_the_number(partition);
    let labels = counter_labels(sink.topology_labels(m), series, partition, compression);
    assert(sink.partition_labels(m, partition).take(4) =~= sink.topology_labels(m));
    assert(labels.take(5) =~= sink.partition_labels(m, partition));
}

/// Whole seconds are what is complete of a time; a time before the epoch has as
/// many as the same time behind it.
pub proof fn whole_seconds_are_complete(ns: int)
    ensures
        ns >= 0 ==> whole_seconds(ns) * 1_000_000_000 <= ns < (whole_seconds(ns) + 1)
            * 1_000_000_000,
        whole_seconds(-ns) == -whole_seconds(ns),
{
}

/// The wait is the time between reading and processing, where both are known.
pub proof fn wait_lies_between_reading_and_processing(m: MessageMetrics)
    ensures
        m.read_time_ns != 0 && m.process_start_time_ns != 0 ==> m.read_time_ns + queue_wait(m)
            == m.process_start_time_ns,
        m.read_time_ns == 0 || m.process_start_time_ns == 0 ==> queue_wait(m) == 0,
{
}

/// An update is handed on as it is: its series, its labels in order, and its
/// amount.
pub proof fn updates_are_handed_on_as_they_are(
    series: Series,
    labels: Vec<(String, String)>,
    by: u64,
    value: i64,
    v: Seq<Update>,
)
    ensures
        (Update::Increase { series, labels, by })@ == (UpdateModel::Increase {
            series,
            labels: pairs::pair_texts(labels@),
            by,
        }),
        (Update::Gauge { series, labels, value })@ == (UpdateModel::Gauge {
            series,
            labels: pairs::pair_texts(labels@),
            value,
        }),
        (Update::GaugeMillis { series, labels, millis: value })@ == (UpdateModel::GaugeMillis {
            series,
            labels: pairs::pair_texts(labels@),
            millis: value,
        }),
        (Update::Observe { series, labels, nanos: by })@ == (UpdateModel::Observe {
            series,
            labels: pairs::pair_texts(labels@),
            nanos: by,
        }),
        update_models(v).len() == v.len(),
        forall|i: int| 0 <= i < v.len() ==> #[trigger] update_models(v)[i] == v[i]@,
{
}

/// What stands before the query string is all of a target up to its first
/// question mark.
pub proof fn query_starts_at_the_first_question_mark(path: Seq<char>, query: Seq<char>)
    requires
        !path.contains('?'),
    ensures
        before_query(path) == path,
        before_query(path + seq!['?'] + query) == path,
    decreases path.len(),
{
    let whole = path + seq!['?'] + query;
    if path.len() == 0 {
        assert(path =~= seq![]);
        assert(whole[0] == '?');
        assert(before_query(whole) =~= path);
        assert(before_query(path) =~= path);
    } else {
        let rest = path.drop_first();
        if rest.contains('?') {
            let i = choose|i: int| 0 <= i < rest.len() && rest[i] == '?';
            assert(path[i + 1] == '?');
        }
        assert(path[0] != '?');
        query_starts_at_the_first_question_mark(rest, query);
        assert(whole.drop_first() =~= rest + seq!['?'] + query);
        assert(whole[0] == path[0]);
        assert(seq![path[0]] + rest =~= path);
    }
}

/// Each reply has its own status.
pub proof fn replies_have_their_own_status(reply: ScrapeReply)
    ensures
        reply.spec_status() == 200 <==> reply == ScrapeReply::Exposition,
        reply.spec_status() == 404 <==> reply == ScrapeReply::NotFound,
        reply.spec_status() == 405 <==> reply == ScrapeReply::MethodNotAllowed,
{
}

/// The text of serve mode names the address and the path, whatever they are,
/// and the text of a failed bind names the address.
pub proof fn serve_texts_name_address_and_path(addr: Seq<char>, path: Seq<char>)
    ensures
        serve_listing(addr, path) == "Metrics { mode: \"serve\", addr: "@ + addr + ", path: "@
            + path + " }"@,
        bind_failure_start(addr) == "metrics endpoint failed to bind "@ + addr + ": "@,
{
}

} // verus!
