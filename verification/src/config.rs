//! Engine configuration and the JSON document that carries it to the engine.
//!
//! [`BrokerConfig`] collects brokers, consumer group and the option pairs that
//! an [`Options`](crate::Options) builder emits. [`DemuxConfig`] holds the
//! thirteen engine tunables, all optional over the engine's own defaults.
//! [`config_json`] writes both into the document that the engine parses.

use crate::foreign;
use crate::json;
use crate::json::{
    json_string_text, member_text, object_text, string_field, string_fields, Json, Member,
};
use crate::pairs;
use crate::pairs::{clone_pairs, dedup_pairs, extend_pairs, Pair};
use crate::text;
use crate::text::{decimal_text, push_text, OptionText};
use std::time::Duration;
use vstd::prelude::*;
use vstd::string::*;

verus! {

// ---------------------------------------------------------------------------
// BrokerConfig
// ---------------------------------------------------------------------------

/// Broker connection and Kafka client configuration: brokers, consumer group
/// and option pairs.
///
/// It has no `Debug`: the option pairs may carry credentials.
pub struct BrokerConfig {
    brokers: String,
    consumer_group: String,
    kafka_config: Vec<(String, String)>,
    deferred_error: Option<String>,
}

/// What a [`BrokerConfig`] holds.
#[verifier::ext_equal]
pub struct BrokerModel {
    /// Broker addresses, comma-separated.
    pub brokers: Seq<char>,
    /// Consumer group ID.
    pub consumer_group: Seq<char>,
    /// The option pairs, in the order in which they were written.
    pub kafka_config: Seq<Pair>,
    /// The first validation failure that was recorded.
    pub deferred_error: Option<Seq<char>>,
}

/// The text of an optional string.
pub open spec fn text_of(s: Option<String>) -> Option<Seq<char>> {
    match s {
        None => None,
        Some(s) => Some(s@),
    }
}

impl View for BrokerConfig {
    type V = BrokerModel;

    closed spec fn view(&self) -> BrokerModel {
        BrokerModel {
            brokers: self.brokers@,
            consumer_group: self.consumer_group@,
            kafka_config: pairs::pair_texts(self.kafka_config@),
            deferred_error: text_of(self.deferred_error),
        }
    }
}

impl Default for BrokerConfig {
    fn default() -> (r: Self)
        ensures
            r@ == (BrokerModel {
                brokers: seq![],
                consumer_group: seq![],
                kafka_config: seq![],
                deferred_error: None,
            }),
    {
        let r = BrokerConfig {
            brokers: String::new(),
            consumer_group: String::new(),
            kafka_config: Vec::new(),
            deferred_error: None,
        };
        assert(pairs::pair_texts(r.kafka_config@) =~= seq![]);
        r
    }
}

impl Clone for BrokerConfig {
    fn clone(&self) -> (r: Self)
        ensures
            r@ == self@,
    {
        BrokerConfig {
            brokers: self.brokers.clone(),
            consumer_group: self.consumer_group.clone(),
            kafka_config: clone_pairs(&self.kafka_config),
            deferred_error: match &self.deferred_error {
                None => None,
                Some(message) => Some(message.clone()),
            },
        }
    }
}

impl BrokerConfig {
    /// An empty configuration: no brokers, no group, no options.
    pub fn new() -> (r: Self)
        ensures
            r@ == (BrokerModel {
                brokers: seq![],
                consumer_group: seq![],
                kafka_config: seq![],
                deferred_error: None,
            }),
    {
        Self::default()
    }

    /// Broker addresses, comma-separated (e.g. "broker1:9092,broker2:9092").
    pub fn brokers(self, brokers: &str) -> (r: Self)
        ensures
            r@ == (BrokerModel { brokers: brokers@, ..self@ }),
    {
        BrokerConfig { brokers: brokers.to_owned(), ..self }
    }

    /// Consumer group ID.
    pub fn consumer_group(self, group: &str) -> (r: Self)
        ensures
            r@ == (BrokerModel { consumer_group: group@, ..self@ }),
    {
        BrokerConfig { consumer_group: group.to_owned(), ..self }
    }

    /// Add one option pair. A key may be repeated; the last write wins.
    pub fn kafka_option<K: OptionText, V: OptionText>(self, key: K, value: V) -> (r: Self)
        ensures
            r@ == (BrokerModel {
                kafka_config: self@.kafka_config.push((key.text(), value.text())),
                ..self@
            }),
    {
        let mut kafka_config = self.kafka_config;
        kafka_config.push((key.into_text(), value.into_text()));
        let r = BrokerConfig { kafka_config, ..self };
        assert(r@.kafka_config =~= self@.kafka_config.push((key.text(), value.text())));
        r
    }

    /// Take in an options builder's validation result and its entries: the
    /// first failure is kept, to be reported when the engine is built, and the
    /// entries are appended either way.
    pub fn adapter_options(
        self,
        validation: Result<(), String>,
        entries: Vec<(String, String)>,
    ) -> (r: Self)
        ensures
            r@ == (BrokerModel {
                kafka_config: self@.kafka_config + pairs::pair_texts(entries@),
                deferred_error: match (self@.deferred_error, validation) {
                    (None, Err(message)) => Some(message@),
                    _ => self@.deferred_error,
                },
                ..self@
            }),
    {
        let deferred_error = match (self.deferred_error, validation) {
            (None, Err(message)) => Some(message),
            (recorded, _) => recorded,
        };
        let mut kafka_config = self.kafka_config;
        extend_pairs(&mut kafka_config, &entries);
        BrokerConfig {
            brokers: self.brokers,
            consumer_group: self.consumer_group,
            kafka_config,
            deferred_error,
        }
    }

    /// The first validation failure that was recorded, if any.
    pub fn deferred_error(&self) -> (r: Option<&str>)
        ensures
            match r {
                None => self@.deferred_error is None,
                Some(message) => self@.deferred_error == Some(message@),
            },
    {
        match &self.deferred_error {
            None => None,
            Some(message) => Some(message.as_str()),
        }
    }

    /// The configured consumer group.
    pub fn consumer_group_value(&self) -> (r: &str)
        ensures
            r@ == self@.consumer_group,
    {
        self.consumer_group.as_str()
    }

    /// The option pairs with repeated keys resolved: the last value written
    /// wins and stands where its key was first written.
    pub fn deduped_kafka_config(&self) -> (r: Vec<(String, String)>)
        ensures
            pairs::pair_texts(r@) == pairs::deduped(self@.kafka_config),
    {
        dedup_pairs(&self.kafka_config)
    }
}

// ---------------------------------------------------------------------------
// DemuxConfig
// ---------------------------------------------------------------------------

/// Engine tunables. Anything left unset receives the engine's own default, and
/// the engine checks every value against its range when it starts.
///
/// Durations are written as whole milliseconds, a started millisecond counting
/// as a whole one, so a duration other than zero never becomes zero.
#[derive(Debug)]
pub struct DemuxConfig {
    /// Maximum number of concurrent per-key workers.
    pub concurrent_keys: Option<u32>,
    /// Per-worker channel buffer length.
    pub per_key_buffer_len: Option<u32>,
    /// Broker poll timeout.
    pub poll_timeout: Option<Duration>,
    /// Offset auto-commit interval.
    pub auto_commit_interval: Option<Duration>,
    /// Cap on draining in-flight work.
    pub drain_timeout: Option<Duration>,
    /// How long the first subscription waits for partitions.
    pub await_assignments_timeout: Option<Duration>,
    /// Commit ingest channel length.
    pub commit_ingest_channel_len: Option<u32>,
    /// Initial gap-buffer size per partition.
    pub commit_partition_slice_len: Option<u32>,
    /// Broker query timeout.
    pub query_timeout: Option<Duration>,
    /// How long dispatch may wait for a worker.
    pub acquire_worker_timeout_circuit_breaker: Option<Duration>,
    /// Worker shard count.
    pub worker_shards_count: Option<u32>,
    /// Cap on the polling pause during a rebalance.
    pub rebalance_pause_polling_timeout: Option<Duration>,
    /// Commit guard acquisition timeout.
    pub acquire_commit_guard_timeout: Option<Duration>,
}

impl Default for DemuxConfig {
    fn default() -> (r: Self)
        ensures
            r.is_unset(),
    {
        DemuxConfig {
            concurrent_keys: None,
            per_key_buffer_len: None,
            poll_timeout: None,
            auto_commit_interval: None,
            drain_timeout: None,
            await_assignments_timeout: None,
            commit_ingest_channel_len: None,
            commit_partition_slice_len: None,
            query_timeout: None,
            acquire_worker_timeout_circuit_breaker: None,
            worker_shards_count: None,
            rebalance_pause_polling_timeout: None,
            acquire_commit_guard_timeout: None,
        }
    }
}

impl Clone for DemuxConfig {
    fn clone(&self) -> (r: Self)
        ensures
            r == *self,
    {
        DemuxConfig {
            concurrent_keys: self.concurrent_keys,
            per_key_buffer_len: self.per_key_buffer_len,
            poll_timeout: self.poll_timeout,
            auto_commit_interval: self.auto_commit_interval,
            drain_timeout: self.drain_timeout,
            await_assignments_timeout: self.await_assignments_timeout,
            commit_ingest_channel_len: self.commit_ingest_channel_len,
            commit_partition_slice_len: self.commit_partition_slice_len,
            query_timeout: self.query_timeout,
            acquire_worker_timeout_circuit_breaker: self.acquire_worker_timeout_circuit_breaker,
            worker_shards_count: self.worker_shards_count,
            rebalance_pause_polling_timeout: self.rebalance_pause_polling_timeout,
            acquire_commit_guard_timeout: self.acquire_commit_guard_timeout,
        }
    }
}

/// The whole milliseconds of a duration, a started one counting as whole.
pub open spec fn whole_millis(d: Duration) -> nat {
    (foreign::duration_nanos(d) + 999_999) / 1_000_000
}

/// The whole milliseconds of an optional duration.
pub open spec fn millis_of(d: Option<Duration>) -> Option<nat> {
    match d {
        None => None,
        Some(d) => Some(whole_millis(d)),
    }
}

/// A number of milliseconds as the engine reads a duration.
pub open spec fn millis_text(ms: nat) -> Seq<char> {
    text::decimal(ms) + "ms"@
}

/// The member for an optional number: none when it is unset.
pub open spec fn count_member(name: Seq<char>, n: Option<nat>) -> Seq<Member> {
    match n {
        None => seq![],
        Some(n) => seq![(name, Json::Number(n))],
    }
}

/// The member for an optional number of milliseconds: none when it is unset.
pub open spec fn span_member(name: Seq<char>, ms: Option<nat>) -> Seq<Member> {
    match ms {
        None => seq![],
        Some(ms) => seq![(name, Json::Text(millis_text(ms)))],
    }
}

/// An optional count as a mathematical number.
pub open spec fn count_of(n: Option<u32>) -> Option<nat> {
    match n {
        None => None,
        Some(n) => Some(n as nat),
    }
}

/// An optional number of milliseconds as a mathematical number.
pub open spec fn span_of(ms: Option<u128>) -> Option<nat> {
    match ms {
        None => None,
        Some(ms) => Some(ms as nat),
    }
}

/// Append the member for an optional number.
pub fn push_count(members: &mut Vec<String>, name: &str, n: Option<u32>)
    ensures
        text::texts(final(members)@) == text::texts(old(members)@) + json::written_members(
            count_member(name@, count_of(n)),
        ),
{
    broadcast use json::written_members_in_order;

    let ghost before = text::texts(members@);
    match n {
        None => {},
        Some(n) => {
            let value = decimal_text(n as u128);
            push_text(members, member_text(name, value.as_str()));
        },
    }
    assert(text::texts(members@) =~= before + json::written_members(
        count_member(name@, count_of(n)),
    ));
}

/// Append the member for an optional number of milliseconds.
pub fn push_span(members: &mut Vec<String>, name: &str, ms: Option<u128>)
    ensures
        text::texts(final(members)@) == text::texts(old(members)@) + json::written_members(
            span_member(name@, span_of(ms)),
        ),
{
    broadcast use json::written_members_in_order;

    let ghost before = text::texts(members@);
    match ms {
        None => {},
        Some(ms) => {
            let mut value = decimal_text(ms);
            value.append("ms");
            let quoted = json_string_text(value.as_str());
            push_text(members, member_text(name, quoted.as_str()));
        },
    }
    assert(text::texts(members@) =~= before + json::written_members(
        span_member(name@, span_of(ms)),
    ));
}

/// The whole milliseconds of an optional duration.
pub fn span_millis(d: Option<Duration>) -> (r: Option<u128>)
    ensures
        span_of(r) == millis_of(d),
{
    match d {
        None => None,
        Some(d) => Some(llingr_nexus::duration_ms_ceil(d)),
    }
}

impl DemuxConfig {
    /// No tunable is set.
    pub open spec fn is_unset(self) -> bool {
        &&& self.concurrent_keys is None
        &&& self.per_key_buffer_len is None
        &&& self.poll_timeout is None
        &&& self.auto_commit_interval is None
        &&& self.drain_timeout is None
        &&& self.await_assignments_timeout is None
        &&& self.commit_ingest_channel_len is None
        &&& self.commit_partition_slice_len is None
        &&& self.query_timeout is None
        &&& self.acquire_worker_timeout_circuit_breaker is None
        &&& self.worker_shards_count is None
        &&& self.rebalance_pause_polling_timeout is None
        &&& self.acquire_commit_guard_timeout is None
    }

    /// The members of the `demux` object: the counts, then the durations.
    pub open spec fn members(self) -> Seq<Member> {
        count_member("concurrentKeys"@, count_of(self.concurrent_keys))
            + count_member("perKeyBufferLen"@, count_of(self.per_key_buffer_len))
            + count_member("commitIngestChannelLen"@, count_of(self.commit_ingest_channel_len))
            + count_member("commitPartitionSliceLen"@, count_of(self.commit_partition_slice_len))
            + count_member("workerShardsCount"@, count_of(self.worker_shards_count))
            + span_member("pollTimeout"@, millis_of(self.poll_timeout))
            + span_member("autoCommitInterval"@, millis_of(self.auto_commit_interval))
            + span_member("drainTimeout"@, millis_of(self.drain_timeout))
            + span_member("awaitAssignmentsTimeout"@, millis_of(self.await_assignments_timeout))
            + span_member("queryTimeout"@, millis_of(self.query_timeout))
            + span_member(
            "acquireWorkerTimeoutCircuitBreaker"@,
            millis_of(self.acquire_worker_timeout_circuit_breaker),
        ) + span_member(
            "rebalancePausePollingTimeout"@,
            millis_of(self.rebalance_pause_polling_timeout),
        ) + span_member(
            "acquireCommitGuardTimeout"@,
            millis_of(self.acquire_commit_guard_timeout),
        )
    }

    /// A configuration with every tunable unset.
    pub fn new() -> (r: Self)
        ensures
            r.is_unset(),
    {
        Self::default()
    }

    /// Maximum number of concurrent per-key workers (engine default 250, max
    /// 5000). Zero selects the engine default.
    pub fn concurrent_keys(self, n: u32) -> (r: Self)
        ensures
            r == (DemuxConfig { concurrent_keys: Some(n), ..self }),
    {
        DemuxConfig { concurrent_keys: Some(n), ..self }
    }

    /// Per-worker channel buffer length (engine default 16, max 64). Zero
    /// selects the engine default.
    pub fn per_key_buffer_len(self, n: u32) -> (r: Self)
        ensures
            r == (DemuxConfig { per_key_buffer_len: Some(n), ..self }),
    {
        DemuxConfig { per_key_buffer_len: Some(n), ..self }
    }

    /// Broker poll timeout (engine default 100ms, range 20ms-2s). Zero selects
    /// the engine default.
    pub fn poll_timeout(self, d: Duration) -> (r: Self)
        ensures
            r == (DemuxConfig { poll_timeout: Some(d), ..self }),
    {
        DemuxConfig { poll_timeout: Some(d), ..self }
    }

    /// Offset auto-commit interval (engine default 5s, range 250ms-15s). Zero
    /// selects the engine default.
    pub fn auto_commit_interval(self, d: Duration) -> (r: Self)
        ensures
            r == (DemuxConfig { auto_commit_interval: Some(d), ..self }),
    {
        DemuxConfig { auto_commit_interval: Some(d), ..self }
    }

    /// Cap on draining in-flight work at a rebalance or shutdown (engine
    /// default 20s, range 2s-55s). Zero selects the engine default.
    pub fn drain_timeout(self, d: Duration) -> (r: Self)
        ensures
            r == (DemuxConfig { drain_timeout: Some(d), ..self }),
    {
        DemuxConfig { drain_timeout: Some(d), ..self }
    }

    /// How long the first subscription waits for partitions (engine default
    /// 50s, range 5s-5m). Zero selects the engine default.
    pub fn await_assignments_timeout(self, d: Duration) -> (r: Self)
        ensures
            r == (DemuxConfig { await_assignments_timeout: Some(d), ..self }),
    {
        DemuxConfig { await_assignments_timeout: Some(d), ..self }
    }

    /// Commit ingest channel length, from 1000 to 200000. Unset or zero, the
    /// engine derives it from the number of concurrent keys.
    pub fn commit_ingest_channel_len(self, n: u32) -> (r: Self)
        ensures
            r == (DemuxConfig { commit_ingest_channel_len: Some(n), ..self }),
    {
        DemuxConfig { commit_ingest_channel_len: Some(n), ..self }
    }

    /// Initial gap-buffer size per partition (engine default 400, range
    /// 50-2000). Zero selects the engine default.
    pub fn commit_partition_slice_len(self, n: u32) -> (r: Self)
        ensures
            r == (DemuxConfig { commit_partition_slice_len: Some(n), ..self }),
    {
        DemuxConfig { commit_partition_slice_len: Some(n), ..self }
    }

    /// Broker query timeout (engine default 5s, range 1s-10s). Zero selects
    /// the engine default.
    pub fn query_timeout(self, d: Duration) -> (r: Self)
        ensures
            r == (DemuxConfig { query_timeout: Some(d), ..self }),
    {
        DemuxConfig { query_timeout: Some(d), ..self }
    }

    /// How long dispatch may wait for a worker before the circuit breaker
    /// fires (engine default 1m, range 15s-15m). Zero selects the engine
    /// default.
    pub fn acquire_worker_timeout_circuit_breaker(self, d: Duration) -> (r: Self)
        ensures
            r == (DemuxConfig { acquire_worker_timeout_circuit_breaker: Some(d), ..self }),
    {
        DemuxConfig { acquire_worker_timeout_circuit_breaker: Some(d), ..self }
    }

    /// Worker shard count, a power of two of at least 2 (engine default 16,
    /// max 64). Zero selects the engine default; 1 is a startup error.
    pub fn worker_shards_count(self, n: u32) -> (r: Self)
        ensures
            r == (DemuxConfig { worker_shards_count: Some(n), ..self }),
    {
        DemuxConfig { worker_shards_count: Some(n), ..self }
    }

    /// Cap on the polling pause during a rebalance (engine default 30s, range
    /// 10s-10m). Zero selects the engine default.
    pub fn rebalance_pause_polling_timeout(self, d: Duration) -> (r: Self)
        ensures
            r == (DemuxConfig { rebalance_pause_polling_timeout: Some(d), ..self }),
    {
        DemuxConfig { rebalance_pause_polling_timeout: Some(d), ..self }
    }

    /// Commit guard acquisition timeout (engine default 10s, range
    /// 100ms-30s). Zero selects the engine default.
    pub fn acquire_commit_guard_timeout(self, d: Duration) -> (r: Self)
        ensures
            r == (DemuxConfig { acquire_commit_guard_timeout: Some(d), ..self }),
    {
        DemuxConfig { acquire_commit_guard_timeout: Some(d), ..self }
    }

    /// The `demux` object, or nothing when no tunable is set.
    #[verifier::rlimit(40)]
    #[verifier::spinoff_prover]
    pub fn demux_json(&self) -> (r: Option<String>)
        ensures
            r is None <==> self.is_unset(),
            r matches Some(json) ==> json@ == json::written(Json::Object(self.members())),
    {
        broadcast use json::written_members_in_order;

        let mut members: Vec<String> = Vec::new();
        proof {
            assert(text::texts(members@) =~= seq![]);
            assert(self.members().len() == 0 <==> self.is_unset());
        }
        push_count(&mut members, "concurrentKeys", self.concurrent_keys);
        assert(text::texts(members@) =~= json::written_members(
            count_member("concurrentKeys"@, count_of(self.concurrent_keys)),
        ));
        push_count(&mut members, "perKeyBufferLen", self.per_key_buffer_len);
        push_count(&mut members, "commitIngestChannelLen", self.commit_ingest_channel_len);
        push_count(&mut members, "commitPartitionSliceLen", self.commit_partition_slice_len);
        push_count(&mut members, "workerShardsCount", self.worker_shards_count);
        push_span(&mut members, "pollTimeout", span_millis(self.poll_timeout));
        push_span(&mut members, "autoCommitInterval", span_millis(self.auto_commit_interval));
        push_span(&mut members, "drainTimeout", span_millis(self.drain_timeout));
        push_span(
            &mut members,
            "awaitAssignmentsTimeout",
            span_millis(self.await_assignments_timeout),
        );
        push_span(&mut members, "queryTimeout", span_millis(self.query_timeout));
        push_span(
            &mut members,
            "acquireWorkerTimeoutCircuitBreaker",
            span_millis(self.acquire_worker_timeout_circuit_breaker),
        );
        push_span(
            &mut members,
            "rebalancePausePollingTimeout",
            span_millis(self.rebalance_pause_polling_timeout),
        );
        push_span(
            &mut members,
            "acquireCommitGuardTimeout",
            span_millis(self.acquire_commit_guard_timeout),
        );
        assert(text::texts(members@) =~= json::written_members(self.members()));
        if members.is_empty() {
            None
        } else {
            Some(object_text(&members))
        }
    }
}

// ---------------------------------------------------------------------------
// The configuration document
// ---------------------------------------------------------------------------

/// The members that every document starts with.
pub open spec fn leading_pairs(topic: Seq<char>, broker: BrokerModel) -> Seq<Pair> {
    seq![
        ("adapter"@, "franz"@),
        ("brokers"@, broker.brokers),
        ("topic"@, topic),
        ("consumer_group"@, broker.consumer_group),
    ]
}

/// The member for the option pairs: none when there are none.
pub open spec fn kafka_config_member(pairs: Seq<Pair>) -> Seq<Member> {
    if pairs.len() == 0 {
        seq![]
    } else {
        seq![("kafka_config"@, Json::Object(json::text_members(pairs::deduped(pairs))))]
    }
}

/// The member for the service identity: none when it is unset.
pub open spec fn service_member(service: Option<Pair>) -> Seq<Member> {
    match service {
        None => seq![],
        Some((name, team)) => seq![
            (
                "service"@,
                Json::Object(seq![("name"@, Json::Text(name)), ("team"@, Json::Text(team))]),
            ),
        ],
    }
}

/// The member for the engine tunables: none when they are all unset.
pub open spec fn demux_member(demux: DemuxConfig) -> Seq<Member> {
    if demux.is_unset() {
        seq![]
    } else {
        seq![("demux"@, Json::Object(demux.members()))]
    }
}

/// The member for the bandwidth intervals: none when both are unset.
pub open spec fn bandwidth_member(stats: Option<nat>, flush: Option<nat>) -> Seq<Member> {
    if stats is None && flush is None {
        seq![]
    } else {
        seq![
            (
                "bandwidth"@,
                Json::Object(
                    span_member("statsInterval"@, stats) + span_member("flushInterval"@, flush),
                ),
            ),
        ]
    }
}

/// The members of the document behind the leading ones.
pub open spec fn optional_members(
    broker: BrokerModel,
    demux: DemuxConfig,
    service: Option<Pair>,
    stats: Option<Duration>,
    flush: Option<Duration>,
) -> Seq<Member> {
    kafka_config_member(broker.kafka_config) + service_member(service) + demux_member(demux)
        + bandwidth_member(millis_of(stats), millis_of(flush))
}

/// The members of the configuration document.
pub open spec fn config_members(
    topic: Seq<char>,
    broker: BrokerModel,
    demux: DemuxConfig,
    service: Option<Pair>,
    stats: Option<Duration>,
    flush: Option<Duration>,
) -> Seq<Member> {
    json::text_members(leading_pairs(topic, broker)) + optional_members(
        broker,
        demux,
        service,
        stats,
        flush,
    )
}

/// The configuration document.
pub open spec fn config_document(
    topic: Seq<char>,
    broker: BrokerModel,
    demux: DemuxConfig,
    service: Option<Pair>,
    stats: Option<Duration>,
    flush: Option<Duration>,
) -> Seq<char> {
    json::written(Json::Object(config_members(topic, broker, demux, service, stats, flush)))
}

/// A service identity as texts.
pub open spec fn service_texts(service: Option<&(String, String)>) -> Option<Pair> {
    match service {
        None => None,
        Some(s) => Some((s.0@, s.1@)),
    }
}

fn push_bandwidth(members: &mut Vec<String>, stats: Option<u128>, flush: Option<u128>)
    ensures
        text::texts(final(members)@) == text::texts(old(members)@) + json::written_members(
            bandwidth_member(span_of(stats), span_of(flush)),
        ),
{
    broadcast use json::written_members_in_order;

    let ghost before = text::texts(members@);
    if stats.is_some() || flush.is_some() {
        let mut intervals: Vec<String> = Vec::new();
        assert(text::texts(intervals@) =~= seq![]);
        push_span(&mut intervals, "statsInterval", stats);
        push_span(&mut intervals, "flushInterval", flush);
        assert(text::texts(intervals@) =~= json::written_members(
            span_member("statsInterval"@, span_of(stats)) + span_member(
                "flushInterval"@,
                span_of(flush),
            ),
        ));
        let value = object_text(&intervals);
        push_text(members, member_text("bandwidth", value.as_str()));
    }
    assert(text::texts(members@) =~= before + json::written_members(
        bandwidth_member(span_of(stats), span_of(flush)),
    ));
}

fn push_service(members: &mut Vec<String>, service: Option<&(String, String)>)
    ensures
        text::texts(final(members)@) == text::texts(old(members)@) + json::written_members(
            service_member(service_texts(service)),
        ),
{
    broadcast use json::written_members_in_order;

    let ghost before = text::texts(members@);
    match service {
        None => {},
        Some(identity) => {
            let mut fields: Vec<String> = Vec::new();
            fields.push(string_field("name", identity.0.as_str()));
            fields.push(string_field("team", identity.1.as_str()));
            assert(text::texts(fields@) =~= json::written_members(
                seq![("name"@, Json::Text(identity.0@)), ("team"@, Json::Text(identity.1@))],
            ));
            let value = object_text(&fields);
            push_text(members, member_text("service", value.as_str()));
        },
    }
    assert(text::texts(members@) =~= before + json::written_members(
        service_member(service_texts(service)),
    ));
}

fn push_kafka_config(members: &mut Vec<String>, broker: &BrokerConfig)
    ensures
        text::texts(final(members)@) == text::texts(old(members)@) + json::written_members(
            kafka_config_member(broker@.kafka_config),
        ),
{
    broadcast use json::written_members_in_order;

    let ghost before = text::texts(members@);
    let kafka_config = broker.deduped_kafka_config();
    proof {
        deduped_is_empty_only_for_nothing(broker@.kafka_config);
    }
    if !kafka_config.is_empty() {
        let fields = string_fields(&kafka_config);
        let value = object_text(&fields);
        push_text(members, member_text("kafka_config", value.as_str()));
    }
    assert(text::texts(members@) =~= before + json::written_members(
        kafka_config_member(broker@.kafka_config),
    ));
}

proof fn deduped_is_empty_only_for_nothing(s: Seq<Pair>)
    ensures
        pairs::deduped(s).len() == 0 <==> s.len() == 0,
{
    if s.len() > 0 {
        let before = pairs::deduped(s.drop_last());
        if pairs::holds_key(before, s.last().0) {
            let i = choose|i: int| 0 <= i < before.len() && #[trigger] before[i].0 == s.last().0;
            assert(before.len() > 0);
        }
    }
}

fn push_demux(members: &mut Vec<String>, demux: &DemuxConfig)
    ensures
        text::texts(final(members)@) == text::texts(old(members)@) + json::written_members(
            demux_member(*demux),
        ),
{
    broadcast use json::written_members_in_order;

    let ghost before = text::texts(members@);
    match demux.demux_json() {
        None => {},
        Some(value) => {
            push_text(members, member_text("demux", value.as_str()));
        },
    }
    assert(text::texts(members@) =~= before + json::written_members(demux_member(*demux)));
}

/// Write the full configuration as the JSON document that the engine parses.
/// What is unset is left out, and the engine then applies its own default.
pub fn config_json(
    topic: &str,
    broker: &BrokerConfig,
    demux: &DemuxConfig,
    service: Option<&(String, String)>,
    bandwidth_stats_interval: Option<Duration>,
    bandwidth_flush_interval: Option<Duration>,
) -> (r: String)
    ensures
        r@ == config_document(
            topic@,
            broker@,
            *demux,
            service_texts(service),
            bandwidth_stats_interval,
            bandwidth_flush_interval,
        ),
{
    broadcast use json::written_members_in_order;

    let mut members: Vec<String> = Vec::new();
    members.push(string_field("adapter", "franz"));
    members.push(string_field("brokers", broker.brokers.as_str()));
    members.push(string_field("topic", topic));
    members.push(string_field("consumer_group", broker.consumer_group.as_str()));
    assert(text::texts(members@) =~= json::written_members(
        json::text_members(leading_pairs(topic@, broker@)),
    ));
    push_kafka_config(&mut members, broker);
    push_service(&mut members, service);
    push_demux(&mut members, demux);
    push_bandwidth(
        &mut members,
        span_millis(bandwidth_stats_interval),
        span_millis(bandwidth_flush_interval),
    );
    assert(text::texts(members@) =~= json::written_members(
        config_members(
            topic@,
            broker@,
            *demux,
            service_texts(service),
            bandwidth_stats_interval,
            bandwidth_flush_interval,
        ),
    ));
    object_text(&members)
}

// ---------------------------------------------------------------------------
// Laws
// ---------------------------------------------------------------------------

/// A duration other than zero is never written as zero milliseconds, which the
/// engine would take for "use the default".
pub proof fn nonzero_duration_is_never_written_as_zero(d: Duration)
    requires
        foreign::duration_nanos(d) > 0,
    ensures
        whole_millis(d) >= 1,
        millis_text(whole_millis(d)) != "0ms"@,
{
    text::nonzero_decimal_has_no_leading_zero(whole_millis(d));
    reveal_strlit("0ms");
    assert(millis_text(whole_millis(d))[0] == text::decimal(whole_millis(d))[0]);
}

/// Rounding up to whole milliseconds adds less than one millisecond.
pub proof fn whole_millis_is_the_least_that_covers(d: Duration)
    ensures
        foreign::duration_nanos(d) <= whole_millis(d) * 1_000_000,
        whole_millis(d) * 1_000_000 < foreign::duration_nanos(d) + 1_000_000,
{
}

/// A JSON reader takes the whole document for one object, with every member as
/// it was configured and nothing behind it.
pub proof fn document_reads_back(
    topic: Seq<char>,
    broker: BrokerModel,
    demux: DemuxConfig,
    service: Option<Pair>,
    stats: Option<Duration>,
    flush: Option<Duration>,
)
    ensures
        json::read_value(config_document(topic, broker, demux, service, stats, flush)) == Some(
            (
                Json::Object(config_members(topic, broker, demux, service, stats, flush)),
                Seq::<char>::empty(),
            ),
        ),
{
    let value = Json::Object(config_members(topic, broker, demux, service, stats, flush));
    json::written_value_reads_back(value, Seq::<char>::empty());
    assert(json::written(value) + Seq::<char>::empty() =~= json::written(value));
}

proof fn member_names_differ()
    ensures
        "adapter"@.len() == 7,
        "brokers"@.len() == 7,
        "topic"@.len() == 5,
        "consumer_group"@.len() == 14,
        "kafka_config"@.len() == 12,
        "service"@.len() == 7,
        "demux"@.len() == 5,
        "bandwidth"@.len() == 9,
        "adapter"@[0] == 'a',
        "brokers"@[0] == 'b',
        "topic"@[0] == 't',
        "service"@[0] == 's',
        "demux"@[0] == 'd',
{
    reveal_strlit("adapter");
    reveal_strlit("brokers");
    reveal_strlit("topic");
    reveal_strlit("consumer_group");
    reveal_strlit("kafka_config");
    reveal_strlit("service");
    reveal_strlit("demux");
    reveal_strlit("bandwidth");
}

/// The value of the first of the members, when it has the name.
spec fn only(members: Seq<Member>, name: Seq<char>) -> Option<Json> {
    if members.len() > 0 && members[0].0 == name {
        Some(members[0].1)
    } else {
        None
    }
}

proof fn member_found(
    topic: Seq<char>,
    broker: BrokerModel,
    demux: DemuxConfig,
    service: Option<Pair>,
    stats: Option<Duration>,
    flush: Option<Duration>,
    name: Seq<char>,
)
    ensures
        json::field(config_members(topic, broker, demux, service, stats, flush), name) == if name
            == "adapter"@ {
            Some(Json::Text("franz"@))
        } else if name == "brokers"@ {
            Some(Json::Text(broker.brokers))
        } else if name == "topic"@ {
            Some(Json::Text(topic))
        } else if name == "consumer_group"@ {
            Some(Json::Text(broker.consumer_group))
        } else if name == "kafka_config"@ {
            only(kafka_config_member(broker.kafka_config), name)
        } else if name == "service"@ {
            only(service_member(service), name)
        } else if name == "demux"@ {
            only(demux_member(demux), name)
        } else {
            only(bandwidth_member(millis_of(stats), millis_of(flush)), name)
        },
{
    member_names_differ();
    let leading = json::text_members(leading_pairs(topic, broker));
    let a = kafka_config_member(broker.kafka_config);
    let b = service_member(service);
    let c = demux_member(demux);
    let d = bandwidth_member(millis_of(stats), millis_of(flush));
    json::field_of_both(leading, a + b + c + d, name);
    json::field_of_both(a + b + c, d, name);
    json::field_of_both(a + b, c, name);
    json::field_of_both(a, b, name);
    field_of_at_most_one(a, name);
    field_of_at_most_one(b, name);
    field_of_at_most_one(c, name);
    field_of_at_most_one(d, name);
    let one = leading.drop_first();
    let two = one.drop_first();
    let three = two.drop_first();
    assert(three.drop_first() =~= seq![]);
    assert(json::field(seq![], name) is None);
    assert(json::field(three, name) == only(three, name));
    assert(json::field(two, name) == if two[0].0 == name {
        Some(two[0].1)
    } else {
        json::field(three, name)
    });
    assert(json::field(one, name) == if one[0].0 == name {
        Some(one[0].1)
    } else {
        json::field(two, name)
    });
}

proof fn field_of_at_most_one(members: Seq<Member>, name: Seq<char>)
    requires
        members.len() <= 1,
    ensures
        json::field(members, name) == only(members, name),
{
    if members.len() == 1 {
        assert(members.drop_first() =~= seq![]);
        assert(json::field(members.drop_first(), name) is None);
    }
}

/// A client option is found with the value that was written last; one that was
/// never written is not found.
pub proof fn options_are_found_with_their_last_value(pairs: Seq<Pair>, key: Seq<char>)
    ensures
        json::field(json::text_members(pairs::deduped(pairs)), key) == match pairs::last_value(
            pairs,
            key,
        ) {
            None => None,
            Some(value) => Some(Json::Text(value)),
        },
{
    pairs::deduped_keys_are_unique(pairs);
    pairs::last_write_wins(pairs, key);
    json::field_of_pairs(pairs::deduped(pairs), key);
}

/// Every part of the configuration is found under its name, as it was
/// configured; what was not configured is not found.
pub proof fn settings_are_found_under_their_names(
    topic: Seq<char>,
    broker: BrokerModel,
    demux: DemuxConfig,
    service: Option<Pair>,
    stats: Option<Duration>,
    flush: Option<Duration>,
)
    ensures
        ({
            let members = config_members(topic, broker, demux, service, stats, flush);
            &&& json::field(members, "adapter"@) == Some(Json::Text("franz"@))
            &&& json::field(members, "brokers"@) == Some(Json::Text(broker.brokers))
            &&& json::field(members, "topic"@) == Some(Json::Text(topic))
            &&& json::field(members, "consumer_group"@) == Some(Json::Text(broker.consumer_group))
            &&& json::field(members, "kafka_config"@) == if broker.kafka_config.len() == 0 {
                None
            } else {
                Some(Json::Object(json::text_members(pairs::deduped(broker.kafka_config))))
            }
            &&& json::field(members, "service"@) == match service {
                None => None,
                Some((name, team)) => Some(
                    Json::Object(seq![("name"@, Json::Text(name)), ("team"@, Json::Text(team))]),
                ),
            }
            &&& json::field(members, "demux"@) == if demux.is_unset() {
                None
            } else {
                Some(Json::Object(demux.members()))
            }
            &&& json::field(members, "bandwidth"@) == if stats is None && flush is None {
                None
            } else {
                Some(
                    Json::Object(
                        span_member("statsInterval"@, millis_of(stats)) + span_member(
                            "flushInterval"@,
                            millis_of(flush),
                        ),
                    ),
                )
            }
        }),
{
    let members = config_members(topic, broker, demux, service, stats, flush);
    member_found(topic, broker, demux, service, stats, flush, "adapter"@);
    member_found(topic, broker, demux, service, stats, flush, "brokers"@);
    member_found(topic, broker, demux, service, stats, flush, "topic"@);
    member_found(topic, broker, demux, service, stats, flush, "consumer_group"@);
    member_found(topic, broker, demux, service, stats, flush, "kafka_config"@);
    member_found(topic, broker, demux, service, stats, flush, "service"@);
    member_found(topic, broker, demux, service, stats, flush, "demux"@);
    member_found(topic, broker, demux, service, stats, flush, "bandwidth"@);
    member_names_differ();
}

/// The value of an optional number.
pub open spec fn count_value(n: Option<nat>) -> Option<Json> {
    match n {
        None => None,
        Some(n) => Some(Json::Number(n)),
    }
}

/// The value of an optional number of milliseconds.
pub open spec fn span_value(ms: Option<nat>) -> Option<Json> {
    match ms {
        None => None,
        Some(ms) => Some(Json::Text(millis_text(ms))),
    }
}

impl DemuxConfig {
    /// The tunable that the engine knows under a name.
    pub open spec fn tunable(self, name: Seq<char>) -> Option<Json> {
        if name == "concurrentKeys"@ {
            count_value(count_of(self.concurrent_keys))
        } else if name == "perKeyBufferLen"@ {
            count_value(count_of(self.per_key_buffer_len))
        } else if name == "commitIngestChannelLen"@ {
            count_value(count_of(self.commit_ingest_channel_len))
        } else if name == "commitPartitionSliceLen"@ {
            count_value(count_of(self.commit_partition_slice_len))
        } else if name == "workerShardsCount"@ {
            count_value(count_of(self.worker_shards_count))
        } else if name == "pollTimeout"@ {
            span_value(millis_of(self.poll_timeout))
        } else if name == "autoCommitInterval"@ {
            span_value(millis_of(self.auto_commit_interval))
        } else if name == "drainTimeout"@ {
            span_value(millis_of(self.drain_timeout))
        } else if name == "awaitAssignmentsTimeout"@ {
            span_value(millis_of(self.await_assignments_timeout))
        } else if name == "queryTimeout"@ {
            span_value(millis_of(self.query_timeout))
        } else if name == "acquireWorkerTimeoutCircuitBreaker"@ {
            span_value(millis_of(self.acquire_worker_timeout_circuit_breaker))
        } else if name == "rebalancePausePollingTimeout"@ {
            span_value(millis_of(self.rebalance_pause_polling_timeout))
        } else if name == "acquireCommitGuardTimeout"@ {
            span_value(millis_of(self.acquire_commit_guard_timeout))
        } else {
            None
        }
    }
}

proof fn field_of_count(label: Seq<char>, n: Option<nat>, name: Seq<char>)
    ensures
        json::field(count_member(label, n), name) == if name == label {
            count_value(n)
        } else {
            None
        },
{
    assert(count_member(label, n).len() > 0 ==> count_member(label, n).drop_first() =~= seq![]);
    assert(json::field(seq![], name) is None);
}

proof fn field_of_span(label: Seq<char>, ms: Option<nat>, name: Seq<char>)
    ensures
        json::field(span_member(label, ms), name) == if name == label {
            span_value(ms)
        } else {
            None
        },
{
    assert(span_member(label, ms).len() > 0 ==> span_member(label, ms).drop_first() =~= seq![]);
    assert(json::field(seq![], name) is None);
}

proof fn tunable_names_differ()
    ensures
        "concurrentKeys"@.len() == 14,
        "perKeyBufferLen"@.len() == 15,
        "commitIngestChannelLen"@.len() == 22,
        "commitPartitionSliceLen"@.len() == 23,
        "workerShardsCount"@.len() == 17,
        "pollTimeout"@.len() == 11,
        "autoCommitInterval"@.len() == 18,
        "drainTimeout"@.len() == 12,
        "awaitAssignmentsTimeout"@.len() == 23,
        "queryTimeout"@.len() == 12,
        "acquireWorkerTimeoutCircuitBreaker"@.len() == 34,
        "rebalancePausePollingTimeout"@.len() == 28,
        "acquireCommitGuardTimeout"@.len() == 25,
        "commitPartitionSliceLen"@[0] == 'c',
        "drainTimeout"@[0] == 'd',
        "awaitAssignmentsTimeout"@[0] == 'a',
        "queryTimeout"@[0] == 'q',
{
    reveal_strlit("concurrentKeys");
    reveal_strlit("perKeyBufferLen");
    reveal_strlit("commitIngestChannelLen");
    reveal_strlit("commitPartitionSliceLen");
    reveal_strlit("workerShardsCount");
    reveal_strlit("pollTimeout");
    reveal_strlit("autoCommitInterval");
    reveal_strlit("drainTimeout");
    reveal_strlit("awaitAssignmentsTimeout");
    reveal_strlit("queryTimeout");
    reveal_strlit("acquireWorkerTimeoutCircuitBreaker");
    reveal_strlit("rebalancePausePollingTimeout");
    reveal_strlit("acquireCommitGuardTimeout");
}

/// Every tunable is found under the one name that the engine knows it by, as
/// it was set, and no other name is found.
pub proof fn tunables_are_found_under_their_names(demux: DemuxConfig, name: Seq<char>)
    ensures
        json::field(demux.members(), name) == demux.tunable(name),
{
    tunable_names_differ();
    let m1 = count_member("concurrentKeys"@, count_of(demux.concurrent_keys));
    field_of_count("concurrentKeys"@, count_of(demux.concurrent_keys), name);
    let m2 = count_member("perKeyBufferLen"@, count_of(demux.per_key_buffer_len));
    field_of_count("perKeyBufferLen"@, count_of(demux.per_key_buffer_len), name);
    json::field_of_both(m1, m2, name);
    let m3 = count_member("commitIngestChannelLen"@, count_of(demux.commit_ingest_channel_len));
    field_of_count("commitIngestChannelLen"@, count_of(demux.commit_ingest_channel_len), name);
    json::field_of_both(m1 + m2, m3, name);
    let m4 = count_member("commitPartitionSliceLen"@, count_of(demux.commit_partition_slice_len));
    field_of_count("commitPartitionSliceLen"@, count_of(demux.commit_partition_slice_len), name);
    json::field_of_both(m1 + m2 + m3, m4, name);
    let m5 = count_member("workerShardsCount"@, count_of(demux.worker_shards_count));
    field_of_count("workerShardsCount"@, count_of(demux.worker_shards_count), name);
    json::field_of_both(m1 + m2 + m3 + m4, m5, name);
    let m6 = span_member("pollTimeout"@, millis_of(demux.poll_timeout));
    field_of_span("pollTimeout"@, millis_of(demux.poll_timeout), name);
    json::field_of_both(m1 + m2 + m3 + m4 + m5, m6, name);
    let m7 = span_member("autoCommitInterval"@, millis_of(demux.auto_commit_interval));
    field_of_span("autoCommitInterval"@, millis_of(demux.auto_commit_interval), name);
    json::field_of_both(m1 + m2 + m3 + m4 + m5 + m6, m7, name);
    let m8 = span_member("drainTimeout"@, millis_of(demux.drain_timeout));
    field_of_span("drainTimeout"@, millis_of(demux.drain_timeout), name);
    json::field_of_both(m1 + m2 + m3 + m4 + m5 + m6 + m7, m8, name);
    let m9 = span_member("awaitAssignmentsTimeout"@, millis_of(demux.await_assignments_timeout));
    field_of_span("awaitAssignmentsTimeout"@, millis_of(demux.await_assignments_timeout), name);
    json::field_of_both(m1 + m2 + m3 + m4 + m5 + m6 + m7 + m8, m9, name);
    let m10 = span_member("queryTimeout"@, millis_of(demux.query_timeout));
    field_of_span("queryTimeout"@, millis_of(demux.query_timeout), name);
    json::field_of_both(m1 + m2 + m3 + m4 + m5 + m6 + m7 + m8 + m9, m10, name);
    let m11 = span_member("acquireWorkerTimeoutCircuitBreaker"@, millis_of(demux.acquire_worker_timeout_circuit_breaker));
    field_of_span("acquireWorkerTimeoutCircuitBreaker"@, millis_of(demux.acquire_worker_timeout_circuit_breaker), name);
    json::field_of_both(m1 + m2 + m3 + m4 + m5 + m6 + m7 + m8 + m9 + m10, m11, name);
    let m12 = span_member("rebalancePausePollingTimeout"@, millis_of(demux.rebalance_pause_polling_timeout));
    field_of_span("rebalancePausePollingTimeout"@, millis_of(demux.rebalance_pause_polling_timeout), name);
    json::field_of_both(m1 + m2 + m3 + m4 + m5 + m6 + m7 + m8 + m9 + m10 + m11, m12, name);
    let m13 = span_member("acquireCommitGuardTimeout"@, millis_of(demux.acquire_commit_guard_timeout));
    field_of_span("acquireCommitGuardTimeout"@, millis_of(demux.acquire_commit_guard_timeout), name);
    json::field_of_both(m1 + m2 + m3 + m4 + m5 + m6 + m7 + m8 + m9 + m10 + m11 + m12, m13, name);
}

/// No control character stands anywhere in the document, whatever was
/// configured; in particular it holds no NUL.
pub proof fn document_has_no_control_characters(
    topic: Seq<char>,
    broker: BrokerModel,
    demux: DemuxConfig,
    service: Option<Pair>,
    stats: Option<Duration>,
    flush: Option<Duration>,
)
    ensures
        json::printable(config_document(topic, broker, demux, service, stats, flush)),
{
    json::written_value_is_printable(
        Json::Object(config_members(topic, broker, demux, service, stats, flush)),
    );
}

// ---------------------------------------------------------------------------
// What the engine reads in the document
// ---------------------------------------------------------------------------

/// The text of a number of milliseconds is read as exactly that number, with
/// the unit behind it; so no two numbers have the same text.
pub proof fn milliseconds_are_read_back(ms: nat, other: nat)
    ensures
        json::read_number(millis_text(ms), 0) == (ms, "ms"@),
        millis_text(ms).len() > 2,
        text::number_in(millis_text(ms).take(millis_text(ms).len() - 2)) == Some(ms),
        millis_text(ms) == millis_text(other) ==> ms == other,
{
    reveal_strlit("ms");
    json::decimal_reads_back(ms, "ms"@);
    json::decimal_reads_back(other, "ms"@);
    text::decimal_starts_with_a_digit(ms);
    text::decimal_stands_for_its_number(ms);
    assert(!json::is_digit("ms"@[0]));
    assert(json::read_number("ms"@, ms) == (ms, "ms"@));
    assert(json::read_number("ms"@, other) == (other, "ms"@));
    assert(millis_text(ms).take(millis_text(ms).len() - 2) =~= text::decimal(ms));
}

/// The values are what an optional duration is written as: nothing when it is
/// unset, and otherwise the least number of milliseconds that covers it, with
/// the unit.
pub open spec fn are_span(values: Seq<Json>, d: Option<Duration>) -> bool {
    match d {
        None => values.len() == 0,
        Some(d) => {
            &&& values.len() == 1
            &&& values[0] matches Json::Text(t)
            &&& {
                let (ms, unit) = json::read_number(t, 0);
                &&& t.len() > unit.len()
                &&& unit == "ms"@
                &&& foreign::duration_nanos(d) <= ms * 1_000_000 < foreign::duration_nanos(d)
                    + 1_000_000
            }
        },
    }
}

/// The values are what an optional count is written as: nothing when it is
/// unset, and the number otherwise.
pub open spec fn are_count(values: Seq<Json>, n: Option<u32>) -> bool {
    match n {
        None => values.len() == 0,
        Some(n) => values.len() == 1 && values[0] == Json::Number(n as nat),
    }
}

proof fn span_is_written(d: Option<Duration>)
    ensures
        are_span(json::at_most_one(span_value(millis_of(d))), d),
{
    match d {
        None => {},
        Some(d) => {
            milliseconds_are_read_back(whole_millis(d), 0);
            whole_millis_is_the_least_that_covers(d);
            reveal_strlit("ms");
        },
    }
}

proof fn count_stands_once(demux: DemuxConfig, name: Seq<char>)
    ensures
        ({
            let members = count_member(
            "concurrentKeys"@,
            count_of(demux.concurrent_keys),
        ) + count_member(
            "perKeyBufferLen"@,
            count_of(demux.per_key_buffer_len),
        ) + count_member(
            "commitIngestChannelLen"@,
            count_of(demux.commit_ingest_channel_len),
        ) + count_member(
            "commitPartitionSliceLen"@,
            count_of(demux.commit_partition_slice_len),
        ) + count_member(
            "workerShardsCount"@,
            count_of(demux.worker_shards_count),
        );
            &&& json::values(members, name) == json::at_most_one(json::field(members, name))
            &&& json::field(members, name) is Some ==> name == "concurrentKeys"@ || name == "perKeyBufferLen"@ || name == "commitIngestChannelLen"@ || name == "commitPartitionSliceLen"@ || name == "workerShardsCount"@
        }),
{
    tunable_names_differ();
    let m0 = count_member("concurrentKeys"@, count_of(demux.concurrent_keys));
    field_of_count("concurrentKeys"@, count_of(demux.concurrent_keys), name);
    json::one_value_of_one(m0, name);
    let m1 = count_member("perKeyBufferLen"@, count_of(demux.per_key_buffer_len));
    field_of_count("perKeyBufferLen"@, count_of(demux.per_key_buffer_len), name);
    json::one_value_of_one(m1, name);
    json::one_value_of_both(m0, m1, name);
    json::field_of_both(m0, m1, name);
    let m2 = count_member("commitIngestChannelLen"@, count_of(demux.commit_ingest_channel_len));
    field_of_count("commitIngestChannelLen"@, count_of(demux.commit_ingest_channel_len), name);
    json::one_value_of_one(m2, name);
    json::one_value_of_both(m0 + m1, m2, name);
    json::field_of_both(m0 + m1, m2, name);
    let m3 = count_member("commitPartitionSliceLen"@, count_of(demux.commit_partition_slice_len));
    field_of_count("commitPartitionSliceLen"@, count_of(demux.commit_partition_slice_len), name);
    json::one_value_of_one(m3, name);
    json::one_value_of_both(m0 + m1 + m2, m3, name);
    json::field_of_both(m0 + m1 + m2, m3, name);
    let m4 = count_member("workerShardsCount"@, count_of(demux.worker_shards_count));
    field_of_count("workerShardsCount"@, count_of(demux.worker_shards_count), name);
    json::one_value_of_one(m4, name);
    json::one_value_of_both(m0 + m1 + m2 + m3, m4, name);
    json::field_of_both(m0 + m1 + m2 + m3, m4, name);
}

proof fn one_span_more_stands_once(
    before: Seq<Member>,
    label: Seq<char>,
    ms: Option<nat>,
    name: Seq<char>,
)
    requires
        json::values(before, name) == json::at_most_one(json::field(before, name)),
        json::field(before, name) is Some ==> name != label,
    ensures
        ({
            let members = before + span_member(label, ms);
            &&& json::values(members, name) == json::at_most_one(json::field(members, name))
            &&& json::field(members, name) is Some ==> json::field(before, name) is Some || name
                == label
        }),
{
    let m = span_member(label, ms);
    field_of_span(label, ms, name);
    json::one_value_of_one(m, name);
    json::one_value_of_both(before, m, name);
    json::field_of_both(before, m, name);
}

proof fn tunable_stands_once(demux: DemuxConfig, name: Seq<char>)
    ensures
        json::values(demux.members(), name) == json::at_most_one(demux.tunable(name)),
{
    tunables_are_found_under_their_names(demux, name);
    tunable_names_differ();
    count_stands_once(demux, name);
    let m0 = count_member("concurrentKeys"@, count_of(demux.concurrent_keys)) + count_member("perKeyBufferLen"@, count_of(demux.per_key_buffer_len)) + count_member("commitIngestChannelLen"@, count_of(demux.commit_ingest_channel_len)) + count_member("commitPartitionSliceLen"@, count_of(demux.commit_partition_slice_len)) + count_member("workerShardsCount"@, count_of(demux.worker_shards_count));
    one_span_more_stands_once(m0, "pollTimeout"@, millis_of(demux.poll_timeout), name);
    let m1 = m0 + span_member("pollTimeout"@, millis_of(demux.poll_timeout));
    one_span_more_stands_once(m1, "autoCommitInterval"@, millis_of(demux.auto_commit_interval), name);
    let m2 = m1 + span_member("autoCommitInterval"@, millis_of(demux.auto_commit_interval));
    one_span_more_stands_once(m2, "drainTimeout"@, millis_of(demux.drain_timeout), name);
    let m3 = m2 + span_member("drainTimeout"@, millis_of(demux.drain_timeout));
    one_span_more_stands_once(m3, "awaitAssignmentsTimeout"@, millis_of(demux.await_assignments_timeout), name);
    let m4 = m3 + span_member("awaitAssignmentsTimeout"@, millis_of(demux.await_assignments_timeout));
    one_span_more_stands_once(m4, "queryTimeout"@, millis_of(demux.query_timeout), name);
    let m5 = m4 + span_member("queryTimeout"@, millis_of(demux.query_timeout));
    one_span_more_stands_once(m5, "acquireWorkerTimeoutCircuitBreaker"@, millis_of(demux.acquire_worker_timeout_circuit_breaker), name);
    let m6 = m5 + span_member("acquireWorkerTimeoutCircuitBreaker"@, millis_of(demux.acquire_worker_timeout_circuit_breaker));
    one_span_more_stands_once(m6, "rebalancePausePollingTimeout"@, millis_of(demux.rebalance_pause_polling_timeout), name);
    let m7 = m6 + span_member("rebalancePausePollingTimeout"@, millis_of(demux.rebalance_pause_polling_timeout));
    one_span_more_stands_once(m7, "acquireCommitGuardTimeout"@, millis_of(demux.acquire_commit_guard_timeout), name);
    let m8 = m7 + span_member("acquireCommitGuardTimeout"@, millis_of(demux.acquire_commit_guard_timeout));
    assert(demux.members() == m8);
}

proof fn member_stands_once(
    topic: Seq<char>,
    broker: BrokerModel,
    demux: DemuxConfig,
    service: Option<Pair>,
    stats: Option<Duration>,
    flush: Option<Duration>,
    name: Seq<char>,
)
    ensures
        ({
            let members = config_members(topic, broker, demux, service, stats, flush);
            &&& json::values_in(
                config_document(topic, broker, demux, service, stats, flush),
                name,
            ) == json::at_most_one(json::field(members, name))
        }),
{
    let members = config_members(topic, broker, demux, service, stats, flush);
    document_reads_back(topic, broker, demux, service, stats, flush);
    member_names_differ();
    let leading = leading_pairs(topic, broker);
    let a = kafka_config_member(broker.kafka_config);
    let b = service_member(service);
    let c = demux_member(demux);
    let d = bandwidth_member(millis_of(stats), millis_of(flush));
    assert(pairs::unique_keys(leading));
    json::one_value_of_pairs(leading, name);
    json::field_of_pairs(leading, name);
    let l = json::text_members(leading);
    assert(json::values(l, name) =~= json::at_most_one(json::field(l, name)));
    pairs::value_is_found(leading, name);
    json::one_value_of_one(a, name);
    json::one_value_of_one(b, name);
    json::one_value_of_one(c, name);
    json::one_value_of_one(d, name);
    field_of_at_most_one(a, name);
    field_of_at_most_one(b, name);
    field_of_at_most_one(c, name);
    field_of_at_most_one(d, name);
    json::one_value_of_both(a, b, name);
    json::field_of_both(a, b, name);
    json::one_value_of_both(a + b, c, name);
    json::field_of_both(a + b, c, name);
    json::one_value_of_both(a + b + c, d, name);
    json::field_of_both(a + b + c, d, name);
    json::one_value_of_both(l, a + b + c + d, name);
}

/// The document names the client, the brokers, the topic and the consumer group
/// as they were given, each under its name and once.
pub proof fn document_names_the_consumer(
    topic: Seq<char>,
    broker: BrokerModel,
    demux: DemuxConfig,
    service: Option<Pair>,
    stats: Option<Duration>,
    flush: Option<Duration>,
)
    ensures
        ({
            let document = config_document(topic, broker, demux, service, stats, flush);
            &&& json::values_in(document, "adapter"@) == seq![Json::Text("franz"@)]
            &&& json::values_in(document, "brokers"@) == seq![Json::Text(broker.brokers)]
            &&& json::values_in(document, "topic"@) == seq![Json::Text(topic)]
            &&& json::values_in(document, "consumer_group"@) == seq![
                Json::Text(broker.consumer_group),
            ]
        }),
{
    settings_are_found_under_their_names(topic, broker, demux, service, stats, flush);
    member_stands_once(topic, broker, demux, service, stats, flush, "adapter"@);
    member_stands_once(topic, broker, demux, service, stats, flush, "brokers"@);
    member_stands_once(topic, broker, demux, service, stats, flush, "topic"@);
    member_stands_once(topic, broker, demux, service, stats, flush, "consumer_group"@);
}

/// The document holds each client option once, with the value that was written
/// last, and no other; without any there is no place for them.
pub proof fn document_holds_the_client_options(
    topic: Seq<char>,
    broker: BrokerModel,
    demux: DemuxConfig,
    service: Option<Pair>,
    stats: Option<Duration>,
    flush: Option<Duration>,
    key: Seq<char>,
)
    ensures
        ({
            let document = config_document(topic, broker, demux, service, stats, flush);
            let options = json::values_in(document, "kafka_config"@);
            &&& broker.kafka_config.len() == 0 <==> options.len() == 0
            &&& json::values_inside(options, key) == match pairs::last_value(
                broker.kafka_config,
                key,
            ) {
                None => Seq::<Json>::empty(),
                Some(value) => seq![Json::Text(value)],
            }
        }),
{
    settings_are_found_under_their_names(topic, broker, demux, service, stats, flush);
    member_stands_once(topic, broker, demux, service, stats, flush, "kafka_config"@);
    pairs::deduped_keys_are_unique(broker.kafka_config);
    pairs::last_write_wins(broker.kafka_config, key);
    json::one_value_of_pairs(pairs::deduped(broker.kafka_config), key);
    let document = config_document(topic, broker, demux, service, stats, flush);
    let options = json::values_in(document, "kafka_config"@);
    if broker.kafka_config.len() == 0 {
        assert(json::values_inside(options, key) =~= seq![]);
    }
}

/// The document holds the service name and the team as they were given, and
/// neither where none was given.
pub proof fn document_holds_the_service(
    topic: Seq<char>,
    broker: BrokerModel,
    demux: DemuxConfig,
    service: Option<Pair>,
    stats: Option<Duration>,
    flush: Option<Duration>,
)
    ensures
        ({
            let document = config_document(topic, broker, demux, service, stats, flush);
            let found = json::values_in(document, "service"@);
            match service {
                None => found.len() == 0,
                Some((name, team)) => {
                    &&& json::values_inside(found, "name"@) == seq![Json::Text(name)]
                    &&& json::values_inside(found, "team"@) == seq![Json::Text(team)]
                },
            }
        }),
{
    settings_are_found_under_their_names(topic, broker, demux, service, stats, flush);
    member_stands_once(topic, broker, demux, service, stats, flush, "service"@);
    match service {
        None => {},
        Some((name, team)) => {
            reveal_strlit("name");
            reveal_strlit("team");
            assert("name"@[0] == 'n' && "team"@[0] == 't');
            let x = seq![("name"@, Json::Text(name))];
            let y = seq![("team"@, Json::Text(team))];
            assert(seq![("name"@, Json::Text(name)), ("team"@, Json::Text(team))] =~= x + y);
            json::values_of_both(x, y, "name"@);
            json::values_of_both(x, y, "team"@);
            json::one_value_of_one(x, "name"@);
            json::one_value_of_one(y, "name"@);
            json::one_value_of_one(x, "team"@);
            json::one_value_of_one(y, "team"@);
            field_of_at_most_one(x, "name"@);
            field_of_at_most_one(y, "name"@);
            field_of_at_most_one(x, "team"@);
            field_of_at_most_one(y, "team"@);
            assert(json::values(x + y, "name"@) =~= seq![Json::Text(name)]);
            assert(json::values(x + y, "team"@) =~= seq![Json::Text(team)]);
        },
    }
}

/// The document holds every engine tunable that was set, under the name that
/// the engine knows it by and once: a count as the number, a duration as the
/// least number of milliseconds that covers it. A tunable that was not set is
/// not there, and where none was set there is no place for them.
pub proof fn document_holds_the_tunables(
    topic: Seq<char>,
    broker: BrokerModel,
    demux: DemuxConfig,
    service: Option<Pair>,
    stats: Option<Duration>,
    flush: Option<Duration>,
)
    ensures
        ({
            let document = config_document(topic, broker, demux, service, stats, flush);
            let found = json::values_in(document, "demux"@);
            &&& are_count(json::values_inside(found, "concurrentKeys"@), demux.concurrent_keys)
            &&& are_count(json::values_inside(found, "perKeyBufferLen"@), demux.per_key_buffer_len)
            &&& are_count(
                json::values_inside(found, "commitIngestChannelLen"@),
                demux.commit_ingest_channel_len,
            )
            &&& are_count(
                json::values_inside(found, "commitPartitionSliceLen"@),
                demux.commit_partition_slice_len,
            )
            &&& are_count(
                json::values_inside(found, "workerShardsCount"@),
                demux.worker_shards_count,
            )
            &&& are_span(json::values_inside(found, "pollTimeout"@), demux.poll_timeout)
            &&& are_span(
                json::values_inside(found, "autoCommitInterval"@),
                demux.auto_commit_interval,
            )
            &&& are_span(json::values_inside(found, "drainTimeout"@), demux.drain_timeout)
            &&& are_span(
                json::values_inside(found, "awaitAssignmentsTimeout"@),
                demux.await_assignments_timeout,
            )
            &&& are_span(json::values_inside(found, "queryTimeout"@), demux.query_timeout)
            &&& are_span(
                json::values_inside(found, "acquireWorkerTimeoutCircuitBreaker"@),
                demux.acquire_worker_timeout_circuit_breaker,
            )
            &&& are_span(
                json::values_inside(found, "rebalancePausePollingTimeout"@),
                demux.rebalance_pause_polling_timeout,
            )
            &&& are_span(
                json::values_inside(found, "acquireCommitGuardTimeout"@),
                demux.acquire_commit_guard_timeout,
            )
            &&& found.len() == 0 <==> demux == (DemuxConfig {
                concurrent_keys: None,
                per_key_buffer_len: None,
                poll_timeout: None,
                auto_commit_interval: None,
                drain_timeout: None,
                await_assignments_timeout: None,
                commit_ingest_channel_len: None,
                commit_partition_slice_len: None,
                query_timeout: None,
                acquire_worker_timeout_circuit_breaker: None,
                worker_shards_count: None,
                rebalance_pause_polling_timeout: None,
                acquire_commit_guard_timeout: None,
            })
        }),
{
    settings_are_found_under_their_names(topic, broker, demux, service, stats, flush);
    member_stands_once(topic, broker, demux, service, stats, flush, "demux"@);
    tunable_names_differ();
    tunable_stands_once(demux, "concurrentKeys"@);
    tunable_stands_once(demux, "perKeyBufferLen"@);
    tunable_stands_once(demux, "commitIngestChannelLen"@);
    tunable_stands_once(demux, "commitPartitionSliceLen"@);
    tunable_stands_once(demux, "workerShardsCount"@);
    tunable_stands_once(demux, "pollTimeout"@);
    tunable_stands_once(demux, "autoCommitInterval"@);
    tunable_stands_once(demux, "drainTimeout"@);
    tunable_stands_once(demux, "awaitAssignmentsTimeout"@);
    tunable_stands_once(demux, "queryTimeout"@);
    tunable_stands_once(demux, "acquireWorkerTimeoutCircuitBreaker"@);
    tunable_stands_once(demux, "rebalancePausePollingTimeout"@);
    tunable_stands_once(demux, "acquireCommitGuardTimeout"@);
    span_is_written(demux.poll_timeout);
    span_is_written(demux.auto_commit_interval);
    span_is_written(demux.drain_timeout);
    span_is_written(demux.await_assignments_timeout);
    span_is_written(demux.query_timeout);
    span_is_written(demux.acquire_worker_timeout_circuit_breaker);
    span_is_written(demux.rebalance_pause_polling_timeout);
    span_is_written(demux.acquire_commit_guard_timeout);
}

/// The document holds both bandwidth intervals as they were given, and neither
/// where none was given.
pub proof fn document_holds_the_bandwidth_intervals(
    topic: Seq<char>,
    broker: BrokerModel,
    demux: DemuxConfig,
    service: Option<Pair>,
    stats: Option<Duration>,
    flush: Option<Duration>,
)
    ensures
        ({
            let document = config_document(topic, broker, demux, service, stats, flush);
            let found = json::values_in(document, "bandwidth"@);
            &&& are_span(json::values_inside(found, "statsInterval"@), stats)
            &&& are_span(json::values_inside(found, "flushInterval"@), flush)
            &&& found.len() == 0 <==> stats is None && flush is None
        }),
{
    settings_are_found_under_their_names(topic, broker, demux, service, stats, flush);
    member_stands_once(topic, broker, demux, service, stats, flush, "bandwidth"@);
    reveal_strlit("statsInterval");
    reveal_strlit("flushInterval");
    assert("statsInterval"@[0] == 's' && "flushInterval"@[0] == 'f');
    let a = span_member("statsInterval"@, millis_of(stats));
    let b = span_member("flushInterval"@, millis_of(flush));
    span_interval_stands_once(a, b, stats, flush, "statsInterval"@);
    span_interval_stands_once(a, b, stats, flush, "flushInterval"@);
    span_is_written(stats);
    span_is_written(flush);
}

proof fn span_interval_stands_once(
    a: Seq<Member>,
    b: Seq<Member>,
    stats: Option<Duration>,
    flush: Option<Duration>,
    name: Seq<char>,
)
    requires
        a == span_member("statsInterval"@, millis_of(stats)),
        b == span_member("flushInterval"@, millis_of(flush)),
        "statsInterval"@ != "flushInterval"@,
    ensures
        json::values(a + b, name) == json::at_most_one(
            if name == "statsInterval"@ {
                span_value(millis_of(stats))
            } else if name == "flushInterval"@ {
                span_value(millis_of(flush))
            } else {
                None
            },
        ),
{
    field_of_span("statsInterval"@, millis_of(stats), name);
    field_of_span("flushInterval"@, millis_of(flush), name);
    json::one_value_of_one(a, name);
    json::one_value_of_one(b, name);
    json::one_value_of_both(a, b, name);
    json::field_of_both(a, b, name);
}

/// Nothing else stands in the document: every name in it is one of these.
pub proof fn document_holds_nothing_else(
    topic: Seq<char>,
    broker: BrokerModel,
    demux: DemuxConfig,
    service: Option<Pair>,
    stats: Option<Duration>,
    flush: Option<Duration>,
    name: Seq<char>,
)
    requires
        json::values_in(
            config_document(topic, broker, demux, service, stats, flush),
            name,
        ).len() > 0,
    ensures
        seq![
            "adapter"@,
            "brokers"@,
            "topic"@,
            "consumer_group"@,
            "kafka_config"@,
            "service"@,
            "demux"@,
            "bandwidth"@,
        ].contains(name),
{
    member_found(topic, broker, demux, service, stats, flush, name);
    member_stands_once(topic, broker, demux, service, stats, flush, name);
    let names = seq![
        "adapter"@,
        "brokers"@,
        "topic"@,
        "consumer_group"@,
        "kafka_config"@,
        "service"@,
        "demux"@,
        "bandwidth"@,
    ];
    assert(names[0] == "adapter"@ && names[1] == "brokers"@ && names[2] == "topic"@);
    assert(names[3] == "consumer_group"@ && names[4] == "kafka_config"@);
    assert(names[5] == "service"@ && names[6] == "demux"@ && names[7] == "bandwidth"@);
}

/// Nothing else stands among the tunables: every name there is one of these.
pub proof fn tunables_hold_nothing_else(demux: DemuxConfig, name: Seq<char>)
    requires
        json::values(demux.members(), name).len() > 0,
    ensures
        seq![
            "concurrentKeys"@,
            "perKeyBufferLen"@,
            "commitIngestChannelLen"@,
            "commitPartitionSliceLen"@,
            "workerShardsCount"@,
            "pollTimeout"@,
            "autoCommitInterval"@,
            "drainTimeout"@,
            "awaitAssignmentsTimeout"@,
            "queryTimeout"@,
            "acquireWorkerTimeoutCircuitBreaker"@,
            "rebalancePausePollingTimeout"@,
            "acquireCommitGuardTimeout"@,
        ].contains(name),
{
    tunable_stands_once(demux, name);
    let names = seq![
        "concurrentKeys"@,
        "perKeyBufferLen"@,
        "commitIngestChannelLen"@,
        "commitPartitionSliceLen"@,
        "workerShardsCount"@,
        "pollTimeout"@,
        "autoCommitInterval"@,
        "drainTimeout"@,
        "awaitAssignmentsTimeout"@,
        "queryTimeout"@,
        "acquireWorkerTimeoutCircuitBreaker"@,
        "rebalancePausePollingTimeout"@,
        "acquireCommitGuardTimeout"@,
    ];
    assert(names[0] == "concurrentKeys"@ && names[1] == "perKeyBufferLen"@);
    assert(names[2] == "commitIngestChannelLen"@ && names[3] == "commitPartitionSliceLen"@);
    assert(names[4] == "workerShardsCount"@ && names[5] == "pollTimeout"@);
    assert(names[6] == "autoCommitInterval"@ && names[7] == "drainTimeout"@);
    assert(names[8] == "awaitAssignmentsTimeout"@ && names[9] == "queryTimeout"@);
    assert(names[10] == "acquireWorkerTimeoutCircuitBreaker"@);
    assert(names[11] == "rebalancePausePollingTimeout"@);
    assert(names[12] == "acquireCommitGuardTimeout"@);
}

/// Numbers, identities and texts are taken into the document as they were
/// given.
pub proof fn settings_are_taken_as_given(
    n: Option<u32>,
    ms: Option<u128>,
    d: Option<Duration>,
    service: Option<&(String, String)>,
    text: Option<String>,
)
    ensures
        n is None <==> count_of(n) is None,
        n matches Some(x) ==> count_of(n) == Some(x as nat),
        ms is None <==> span_of(ms) is None,
        ms matches Some(x) ==> span_of(ms) == Some(x as nat),
        d is None <==> millis_of(d) is None,
        d matches Some(x) ==> (millis_of(d) matches Some(y) && foreign::duration_nanos(x) <= y
            * 1_000_000 < foreign::duration_nanos(x) + 1_000_000),
        service is None <==> service_texts(service) is None,
        service matches Some(s) ==> service_texts(service) == Some((s.0@, s.1@)),
        text is None <==> text_of(text) is None,
        text matches Some(t) ==> text_of(text) == Some(t@),
{
}

} // verus!
