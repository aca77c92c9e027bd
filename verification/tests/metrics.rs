//! The Prometheus series: what packets record, how it is exposed, and how
//! scrape requests are answered.

use llingr_kafka::metrics::{
    bind_failure_text, route, serve_listing_text, BandwidthMetrics, BandwidthOptions,
    BandwidthSink, BrokerInfo, MessageMetrics, MessageOptions, MessageSink, Mode,
    PartitionBandwidth, ScrapeReply, Series, SeriesKind, Update, NAMESPACE,
};
use llingr_kafka::{Metrics, MetricsHandle, OPENMETRICS_CONTENT_TYPE};
use llingr_nexus::Traits;
use prometheus_client::metrics::counter::Counter;
use prometheus_client::metrics::family::{Family, MetricConstructor};
use prometheus_client::metrics::gauge::Gauge;
use prometheus_client::metrics::histogram::{exponential_buckets, Histogram};
use prometheus_client::registry::Registry;
use std::sync::atomic::AtomicU64;
use std::sync::Arc;

type Labels = Vec<(String, String)>;
type FloatGauge = Gauge<f64, AtomicU64>;

/// Makes histograms with bounds that double from the first one.
#[derive(Clone)]
struct Doubling {
    first_micros: u32,
    buckets: u16,
}

impl MetricConstructor<Histogram> for Doubling {
    fn new_metric(&self) -> Histogram {
        let first = f64::from(self.first_micros) / 1e6;
        Histogram::new(exponential_buckets(first, 2.0, self.buckets))
    }
}

enum Collector {
    Counter(Family<Labels, Counter>),
    Gauge(Family<Labels, Gauge>),
    SecondsGauge(Family<Labels, FloatGauge>),
    Histogram(Family<Labels, Histogram, Doubling>),
}

/// The registered series, and the registry that renders them.
struct Collectors {
    registry: Arc<Registry>,
    collectors: Vec<(Series, Collector)>,
}

impl Collectors {
    fn register(series: &[Series]) -> Self {
        let mut registry = Registry::default();
        let mut collectors = Vec::new();
        for s in series {
            let reg = registry
                .sub_registry_with_prefix(NAMESPACE)
                .sub_registry_with_prefix(s.subsystem());
            let collector = match s.kind() {
                SeriesKind::Counter => {
                    let family = Family::<Labels, Counter>::default();
                    reg.register(s.name(), s.help(), family.clone());
                    Collector::Counter(family)
                }
                SeriesKind::Gauge => {
                    let family = Family::<Labels, Gauge>::default();
                    reg.register(s.name(), s.help(), family.clone());
                    Collector::Gauge(family)
                }
                SeriesKind::SecondsGauge => {
                    let family = Family::<Labels, FloatGauge>::default();
                    reg.register(s.name(), s.help(), family.clone());
                    Collector::SecondsGauge(family)
                }
                SeriesKind::Histogram {
                    first_micros,
                    buckets,
                } => {
                    let family = Family::new_with_constructor(Doubling {
                        first_micros,
                        buckets,
                    });
                    reg.register(s.name(), s.help(), family.clone());
                    Collector::Histogram(family)
                }
            };
            collectors.push((*s, collector));
        }
        Collectors {
            registry: Arc::new(registry),
            collectors,
        }
    }

    fn find(&self, series: Series) -> &Collector {
        &self
            .collectors
            .iter()
            .find(|(s, _)| *s == series)
            .expect("a registered series")
            .1
    }

    fn apply(&self, updates: Vec<Update>) {
        for update in updates {
            match update {
                Update::Increase { series, labels, by } => match self.find(series) {
                    Collector::Counter(f) => {
                        f.get_or_create(&labels).inc_by(by);
                    }
                    _ => panic!("{series:?} is no counter"),
                },
                Update::Gauge {
                    series,
                    labels,
                    value,
                } => match self.find(series) {
                    Collector::Gauge(f) => {
                        f.get_or_create(&labels).set(value);
                    }
                    _ => panic!("{series:?} is no gauge"),
                },
                Update::GaugeMillis {
                    series,
                    labels,
                    millis,
                } => match self.find(series) {
                    Collector::SecondsGauge(f) => {
                        f.get_or_create(&labels).set(millis as f64 / 1000.0);
                    }
                    _ => panic!("{series:?} is no gauge in seconds"),
                },
                Update::Observe {
                    series,
                    labels,
                    nanos,
                } => match self.find(series) {
                    Collector::Histogram(f) => {
                        f.get_or_create(&labels).observe(nanos as f64 / 1e9);
                    }
                    _ => panic!("{series:?} is no histogram"),
                },
            }
        }
    }

    fn scrape(&self) -> String {
        render(&self.registry)
    }
}

fn render(registry: &Registry) -> String {
    let mut buf = String::new();
    prometheus_client::encoding::text::encode(&mut buf, registry).expect("encodes");
    buf
}

// -- messages -------------------------------------------------------------------

fn base_metrics() -> MessageMetrics {
    MessageMetrics {
        traits: 0,
        queue_depth: 0,
        partition: 0,
        offset: 0,
        process_duration_ns: 0,
        deadletter_duration_ns: 0,
        read_time_ns: 0,
        process_start_time_ns: 0,
        watermark_advance_time_ns: 0,
    }
}

fn sink_and_registry() -> (MessageSink, Collectors) {
    let (sink, series) = MessageSink::register(
        MessageOptions::new()
            .topic("orders")
            .consumer_group("grp")
            .service("svc", "team"),
    );
    (sink, Collectors::register(&series))
}

#[test]
fn processed_always_counts_with_identity_labels() {
    let (sink, registry) = sink_and_registry();
    registry.apply(sink.handle(&MessageMetrics {
        partition: 3,
        ..base_metrics()
    }));
    let text = registry.scrape();

    assert!(text.contains("llingr_engine_processed_total{"), "{text}");
    assert!(text.contains("topic=\"orders\""), "{text}");
    assert!(text.contains("consumer_group=\"grp\""), "{text}");
    assert!(text.contains("service=\"svc\""), "{text}");
    assert!(text.contains("team=\"team\""), "{text}");
    assert!(text.contains("partition=\"3\""), "{text}");
    // A message with no error traits touches none of the error counters.
    assert!(!text.contains("errored_total{"), "{text}");
    assert!(!text.contains("panicked_total{"), "{text}");
}

#[test]
fn trait_bits_drive_error_counters() {
    let (sink, registry) = sink_and_registry();
    // Bits: 0 process error, 1 panic, 2 dead-letter, 4 duplicate,
    // 5 used-overflow. Bit 3 (commit-buffered) maps to no metric.
    let raw = (1 << 0) | (1 << 1) | (1 << 2) | (1 << 3) | (1 << 4) | (1 << 5);
    registry.apply(sink.handle(&MessageMetrics {
        traits: Traits::from_raw(raw).raw_with_framework(),
        ..base_metrics()
    }));
    let text = registry.scrape();

    for name in [
        "processed_total",
        "errored_total",
        "panicked_total",
        "dead_lettered_total",
        "duplicate_total",
        "used_overflow_total",
    ] {
        assert!(
            text.contains(&format!("llingr_engine_{name}{{")),
            "missing {name} in\n{text}"
        );
    }
}

#[test]
fn gauges_and_histograms_record_conversions() {
    let (sink, registry) = sink_and_registry();
    registry.apply(sink.handle(&MessageMetrics {
        queue_depth: 7,
        offset: 42,
        process_duration_ns: 2_000_000,    // 0.002 s
        deadletter_duration_ns: 4_000_000, // 0.004 s
        read_time_ns: 1_000_000,
        process_start_time_ns: 3_000_000, // wait 0.002 s
        ..base_metrics()
    }));
    let text = registry.scrape();

    assert!(text.contains("llingr_engine_queue_depth{"), "{text}");
    assert!(text.contains("} 7"), "queue_depth value\n{text}");
    assert!(text.contains("llingr_engine_current_offset{"), "{text}");
    assert!(text.contains("} 42"), "offset value\n{text}");

    assert!(
        text.contains("llingr_engine_process_duration_seconds_sum{"),
        "{text}"
    );
    assert!(
        text.contains("llingr_engine_process_duration_seconds_count{"),
        "{text}"
    );
    assert!(
        text.contains("llingr_engine_dead_letter_duration_seconds_count{"),
        "{text}"
    );
    assert!(
        text.contains("llingr_engine_queue_wait_duration_seconds_count{"),
        "{text}"
    );
}

#[test]
fn zero_durations_are_not_observed() {
    let (sink, registry) = sink_and_registry();
    registry.apply(sink.handle(&base_metrics())); // all durations zero, timestamps zero
    let text = registry.scrape();
    // Histograms exist as declared families but record no observations.
    assert!(!text.contains("process_duration_seconds_count{"), "{text}");
    assert!(
        !text.contains("queue_wait_duration_seconds_count{"),
        "{text}"
    );
}

/// Pin the exact histogram bucket boundaries: a silent change here would
/// corrupt dashboards.
#[test]
fn histogram_buckets_match_go_boundaries() {
    let (sink, registry) = sink_and_registry();
    registry.apply(sink.handle(&MessageMetrics {
        process_duration_ns: 1, // land in the lowest bucket
        read_time_ns: 1,
        process_start_time_ns: 2,
        ..base_metrics()
    }));
    let text = registry.scrape();

    // process_duration: first, a middle, and the last finite bound.
    for le in ["0.001", "0.256", "16.384"] {
        assert!(
            text.contains(&format!(
                "llingr_engine_process_duration_seconds_bucket{{le=\"{le}\""
            )),
            "missing process bucket le={le} in\n{text}"
        );
    }
    // queue_wait: first and last finite bound of the 18-bucket series.
    for le in ["0.0001", "13.1072"] {
        assert!(
            text.contains(&format!(
                "llingr_engine_queue_wait_duration_seconds_bucket{{le=\"{le}\""
            )),
            "missing queue_wait bucket le={le} in\n{text}"
        );
    }
    // No spurious 16th/19th finite bucket beyond the boundary.
    assert!(
        !text.contains("process_duration_seconds_bucket{le=\"32.768\""),
        "{text}"
    );
    assert!(
        !text.contains("queue_wait_duration_seconds_bucket{le=\"26.2144\""),
        "{text}"
    );
}

/// Negative durations (a defensive case for clock anomalies) must not be
/// observed, and a process start EARLIER than the read time must not record a
/// negative wait.
#[test]
fn negative_durations_and_waits_are_not_observed() {
    let (sink, registry) = sink_and_registry();
    registry.apply(sink.handle(&MessageMetrics {
        process_duration_ns: -5,
        deadletter_duration_ns: -5,
        read_time_ns: 10,
        process_start_time_ns: 4, // wait would be negative
        ..base_metrics()
    }));
    let text = registry.scrape();
    assert!(!text.contains("process_duration_seconds_count{"), "{text}");
    assert!(
        !text.contains("dead_letter_duration_seconds_count{"),
        "{text}"
    );
    assert!(
        !text.contains("queue_wait_duration_seconds_count{"),
        "{text}"
    );
}

// -- bandwidth ------------------------------------------------------------------

fn broker(id: &str, host: &str) -> BrokerInfo {
    BrokerInfo {
        id: id.to_string(),
        host: host.to_string(),
        port: "9092".to_string(),
        rack: String::new(),
    }
}

fn partition(id: i32) -> PartitionBandwidth {
    PartitionBandwidth {
        ts_unix_ns: 0,
        received_bytes: 0,
        transmitted_bytes: 0,
        received_message_count: 0,
        compressed_bytes: 0,
        uncompressed_bytes: 0,
        id,
        leader: String::new(),
        compression: String::new(),
    }
}

fn packet(brokers: Vec<BrokerInfo>, partitions: Vec<PartitionBandwidth>) -> BandwidthMetrics {
    BandwidthMetrics {
        ts_unix_ns: 1_700_000_000_000_000_000, // 1_700_000_000 s
        stats_interval_ms: 5_000,              // 5 s
        metrics_id: "id-1".to_string(),
        topic: "orders".to_string(),
        consumer_group: "grp".to_string(),
        brokers,
        partitions,
    }
}

fn bandwidth_sink_and_registry() -> (BandwidthSink, Collectors) {
    let (sink, series) = BandwidthSink::register(BandwidthOptions::new().service("svc", "team"));
    (sink, Collectors::register(&series))
}

#[test]
fn counters_gauges_and_broker_info() {
    let (sink, registry) = bandwidth_sink_and_registry();
    let p = PartitionBandwidth {
        received_bytes: 1000,
        transmitted_bytes: 500,
        received_message_count: 10,
        compressed_bytes: 300,
        uncompressed_bytes: 900,
        compression: "lz4".to_string(),
        ..partition(0)
    };
    registry.apply(sink.handle(&packet(vec![broker("1", "h1"), broker("2", "h2")], vec![p])));
    let text = registry.scrape();

    assert!(
        text.contains("llingr_bandwidth_received_bytes_total{"),
        "{text}"
    );
    assert!(
        text.contains("llingr_bandwidth_transmitted_bytes_total{"),
        "{text}"
    );
    assert!(
        text.contains("llingr_bandwidth_received_messages_total{"),
        "{text}"
    );
    assert!(text.contains("compression=\"lz4\""), "{text}");
    // Topology gauges.
    assert!(text.contains("llingr_bandwidth_broker_count{"), "{text}");
    assert!(text.contains("llingr_bandwidth_partition_count{"), "{text}");
    assert!(
        text.contains("llingr_bandwidth_stats_interval_seconds{"),
        "{text}"
    );
    assert!(
        text.contains("llingr_bandwidth_last_collection_timestamp_seconds{"),
        "{text}"
    );
    // Info metric: one series per broker, value 1.
    assert!(text.contains("broker_host=\"h1\""), "{text}");
    assert!(text.contains("broker_host=\"h2\""), "{text}");
    assert!(text.contains("topic=\"orders\""), "{text}");
}

#[test]
fn empty_compression_falls_back_to_unknown() {
    let (sink, registry) = bandwidth_sink_and_registry();
    let p = PartitionBandwidth {
        compressed_bytes: 128,
        compression: String::new(),
        ..partition(0)
    };
    registry.apply(sink.handle(&packet(vec![], vec![p])));
    let text = registry.scrape();
    assert!(text.contains("compression=\"unknown\""), "{text}");
}

#[test]
fn counters_accumulate_deltas() {
    let (sink, registry) = bandwidth_sink_and_registry();
    let make = || {
        packet(
            vec![],
            vec![PartitionBandwidth {
                received_bytes: 1000,
                ..partition(0)
            }],
        )
    };
    registry.apply(sink.handle(&make()));
    registry.apply(sink.handle(&make()));
    let text = registry.scrape();
    // Two 1000-byte deltas accumulate to 2000 on the running counter.
    assert!(
        text.contains("} 2000"),
        "expected accumulated 2000 in\n{text}"
    );
}

#[test]
fn broker_info_retains_stale_series_on_topology_change() {
    let (sink, registry) = bandwidth_sink_and_registry();
    registry.apply(sink.handle(&packet(vec![broker("1", "h1"), broker("2", "h2")], vec![])));
    // Broker 2 moves host; broker 1 unchanged.
    registry.apply(sink.handle(&packet(
        vec![broker("1", "h1"), broker("2", "h2-new")],
        vec![],
    )));
    let text = registry.scrape();
    // Old and new broker-2 label sets both persist (never deleted): three
    // distinct broker_info series across the two collections.
    assert!(
        text.contains("broker_host=\"h2\""),
        "old series gone\n{text}"
    );
    assert!(
        text.contains("broker_host=\"h2-new\""),
        "new series missing\n{text}"
    );
    let count = text.matches("llingr_bandwidth_broker_info{").count();
    assert_eq!(
        count, 3,
        "expected 3 broker_info series, got {count}\n{text}"
    );
}

#[test]
fn zero_valued_partition_fields_are_skipped() {
    let (sink, registry) = bandwidth_sink_and_registry();
    registry.apply(sink.handle(&packet(vec![], vec![partition(0)]))); // all counters zero
    let text = registry.scrape();
    assert!(!text.contains("received_bytes_total{"), "{text}");
    assert!(!text.contains("compressed_bytes_total{"), "{text}");
}

/// The collection-timestamp gauge is set only when the packet carries a
/// timestamp, and the interval gauge converts milliseconds to seconds.
#[test]
fn timestamp_zero_is_skipped_and_interval_converts() {
    let (sink, registry) = bandwidth_sink_and_registry();
    let mut p = packet(vec![], vec![]);
    p.ts_unix_ns = 0;
    registry.apply(sink.handle(&p));
    let text = registry.scrape();
    assert!(
        !text.contains("last_collection_timestamp_seconds{"),
        "zero ts must not set the gauge\n{text}"
    );
    // 5000 ms configured in packet() renders as 5.0 seconds.
    assert!(
        text.contains("llingr_bandwidth_stats_interval_seconds{"),
        "{text}"
    );
    let line = text
        .lines()
        .find(|l| l.starts_with("llingr_bandwidth_stats_interval_seconds{"))
        .expect("interval series present");
    assert!(line.trim_end().ends_with(" 5.0"), "expected 5.0: {line}");

    // And with a real timestamp the gauge is whole Unix seconds.
    let p2 = packet(vec![], vec![]);
    registry.apply(sink.handle(&p2));
    let text2 = registry.scrape();
    let ts_line = text2
        .lines()
        .find(|l| l.starts_with("llingr_bandwidth_last_collection_timestamp_seconds{"))
        .expect("timestamp series present after non-zero ts");
    assert!(
        ts_line.trim_end().ends_with(" 1700000000"),
        "expected epoch seconds 1700000000: {ts_line}"
    );
}

// -- exposition -----------------------------------------------------------------

/// The status line and the body that a GET of a path is answered with.
fn http_get(registry: &Collectors, served: &str, url: &str) -> String {
    let answer = route(true, url, served).answer(registry.scrape());
    match answer.content_type {
        Some(content_type) => format!(
            "HTTP/1.1 {} OK\r\nContent-Type: {content_type}\r\n\r\n{}",
            answer.status, answer.body
        ),
        None => format!("HTTP/1.1 {}\r\n\r\n{}", answer.status, answer.body),
    }
}

#[test]
fn serves_metrics_at_the_configured_path() {
    let (sink, series) =
        MessageSink::register(MessageOptions::new().topic("orders").consumer_group("grp"));
    let registry = Collectors::register(&series);
    registry.apply(sink.handle(&MessageMetrics {
        partition: 1,
        ..base_metrics()
    }));

    let ok = http_get(&registry, "/telemetry", "/telemetry");
    assert!(ok.contains("200 OK"), "status line: {ok}");
    assert!(ok.contains(OPENMETRICS_CONTENT_TYPE), "content type: {ok}");
    assert!(ok.contains("llingr_engine_processed_total{"), "body: {ok}");

    let missing = http_get(&registry, "/telemetry", "/metrics");
    assert!(missing.contains("404"), "unexpected: {missing}");
}

#[test]
fn query_strings_match_and_non_get_is_rejected() {
    let registry = Collectors::register(&[]);

    // A scraper appending a query string still hits the path.
    let with_query = http_get(&registry, "/metrics", "/metrics?format=openmetrics");
    assert!(with_query.contains("200 OK"), "query string: {with_query}");

    // Non-GET methods get 405.
    let response = route(false, "/metrics", "/metrics");
    assert_eq!(response.status(), 405, "POST response");
}

fn record_one_message(sink: &MessageSink, registry: &Collectors, partition: i32) {
    registry.apply(sink.handle(&MessageMetrics {
        partition,
        ..base_metrics()
    }));
}

/// Serve mode: realise names the endpoint to bind, and both sinks feed the one
/// registry.
#[test]
fn serve_mode_binds_and_exposes_both_sinks() {
    let realised = Metrics::serve("127.0.0.1:0", "/metrics").realise("orders", "grp", "svc", "team");
    let Mode::Serve(endpoint) = &realised.mode else {
        panic!("serve mode has an endpoint");
    };
    assert!(realised.mode.is_serve());
    assert_eq!(endpoint.addr, "127.0.0.1:0");
    let registry = Collectors::register(&realised.series);

    record_one_message(&realised.message_sink, &registry, 4);
    registry.apply(realised.bandwidth_sink.handle(&packet(vec![], vec![])));

    let response = http_get(&registry, &endpoint.path, "/metrics");
    assert!(response.contains("200 OK"), "{response}");
    assert!(
        response.contains("llingr_engine_processed_total{"),
        "{response}"
    );
    assert!(
        response.contains("llingr_bandwidth_broker_count{"),
        "{response}"
    );
}

/// Registry mode: the handle serves an empty exposition before realise
/// and the live registry afterwards; no server is started.
#[test]
fn registry_mode_handle_goes_live_at_realise() {
    let rendered = |h: &MetricsHandle| h.scrape(h.slot().get().map(|r| render(r)));
    let (metrics, handle) = Metrics::registry();
    assert_eq!(rendered(&handle), "", "empty exposition before realise");

    let realised = metrics.realise("orders", "grp", "svc", "team");
    assert!(!realised.mode.is_serve(), "registry mode starts no server");
    let Mode::Registry(slot) = &realised.mode else {
        panic!("registry mode has a slot");
    };

    let registry = Collectors::register(&realised.series);
    assert!(slot.set(Arc::clone(&registry.registry)).is_ok());
    record_one_message(&realised.message_sink, &registry, 2);
    let text = rendered(&handle);
    assert_eq!(rendered(&handle.clone()), text, "a clone reads the same registry");
    assert!(
        text.contains("llingr_engine_processed_total{"),
        "handle serves the live registry: {text}"
    );
    assert!(text.contains("partition=\"2\""), "{text}");
}

// -- laws on values -------------------------------------------------------------

/// Counters hold the number of packets, per partition.
#[test]
fn processed_counter_holds_the_number_of_messages() {
    let (sink, registry) = sink_and_registry();
    for _ in 0..5 {
        record_one_message(&sink, &registry, 1);
    }
    record_one_message(&sink, &registry, -1);
    let text = registry.scrape();
    let value = |partition: &str| {
        text.lines()
            .find(|l| {
                l.starts_with("llingr_engine_processed_total{")
                    && l.contains(&format!("partition=\"{partition}\""))
            })
            .and_then(|l| l.rsplit(' ').next())
            .map(str::to_string)
    };
    assert_eq!(value("1").as_deref(), Some("5"));
    assert_eq!(value("-1").as_deref(), Some("1"));
    assert_eq!(value("0"), None);
}

/// The updates of one packet, in order.
#[test]
fn message_updates_are_exact() {
    let (sink, _) = sink_and_registry();
    let updates = sink.handle(&MessageMetrics {
        traits: (1 << 2) | (1 << 40),
        queue_depth: -3,
        partition: 9,
        offset: 77,
        process_duration_ns: 5,
        deadletter_duration_ns: 0,
        read_time_ns: 10,
        process_start_time_ns: 16,
        watermark_advance_time_ns: 99,
    });
    let got: Vec<(Series, i64)> = updates
        .into_iter()
        .map(|u| match u {
            Update::Increase { series, labels, by } => {
                assert_eq!(labels, sink.labels(9));
                (series, by as i64)
            }
            Update::Gauge {
                series,
                labels,
                value,
            } => {
                assert_eq!(labels, sink.labels(9));
                (series, value)
            }
            Update::Observe {
                series,
                labels,
                nanos,
            } => {
                assert_eq!(labels, sink.labels(9));
                (series, nanos as i64)
            }
            Update::GaugeMillis { .. } => panic!("no message series is in seconds"),
        })
        .collect();
    assert_eq!(
        got,
        vec![
            (Series::Processed, 1),
            (Series::DeadLettered, 1),
            (Series::QueueDepth, -3),
            (Series::CurrentOffset, 77),
            (Series::ProcessDuration, 5),
            (Series::QueueWaitDuration, 6),
        ]
    );
}

/// The waiting time is exact over the whole range of both timestamps.
#[test]
fn extreme_waiting_times_are_observed() {
    let (sink, registry) = sink_and_registry();
    for (read, start, wait) in [
        (-1, i64::MAX, Some(1u64 << 63)),
        (i64::MIN, i64::MAX, Some(u64::MAX)),
        (i64::MAX, i64::MIN, None),
        (5, 5, None),
        (0, 9, None),
        (9, 0, None),
        (-3, -1, Some(2)),
    ] {
        let updates = sink.handle(&MessageMetrics {
            read_time_ns: read,
            process_start_time_ns: start,
            ..base_metrics()
        });
        let waited = updates.iter().find_map(|u| match u {
            Update::Observe {
                series: Series::QueueWaitDuration,
                nanos,
                ..
            } => Some(*nanos),
            _ => None,
        });
        assert_eq!(waited, wait, "read {read}, start {start}");
        registry.apply(updates);
    }
}

/// Over a run of packets: per-partition sums of the positive deltas, one info
/// series for every broker ever reported, and the latest collection time.
#[test]
fn bandwidth_runs_add_up() {
    let (sink, registry) = bandwidth_sink_and_registry();
    let delta = |id: i32, received: i64, compressed: i64, compression: &str| PartitionBandwidth {
        received_bytes: received,
        compressed_bytes: compressed,
        compression: compression.to_string(),
        ..partition(id)
    };
    let mut last = packet(vec![], vec![delta(0, -7, 3, ""), delta(0, 4, 5, "")]);
    last.ts_unix_ns = 0;
    for p in [
        packet(vec![broker("1", "a")], vec![delta(0, 10, 2, "lz4"), delta(1, 0, 0, "lz4")]),
        packet(vec![broker("1", "a"), broker("2", "b")], vec![delta(0, 20, 1, "lz4")]),
        last,
    ] {
        registry.apply(sink.handle(&p));
    }
    let text = registry.scrape();
    let value = |name: &str, labels: &[&str]| {
        text.lines()
            .find(|l| {
                l.starts_with(&format!("llingr_bandwidth_{name}{{"))
                    && labels.iter().all(|label| l.contains(label))
            })
            .and_then(|l| l.rsplit(' ').next())
            .map(str::to_string)
    };
    let zero = "partition=\"0\"";
    let one = "partition=\"1\"";
    assert_eq!(value("received_bytes_total", &[zero]).as_deref(), Some("34"));
    assert_eq!(value("received_bytes_total", &[one]), None);
    assert_eq!(value("transmitted_bytes_total", &[zero]), None);
    assert_eq!(
        value("compressed_bytes_total", &[zero, "compression=\"lz4\""]).as_deref(),
        Some("3")
    );
    assert_eq!(
        value("compressed_bytes_total", &[zero, "compression=\"unknown\""]).as_deref(),
        Some("8")
    );
    assert_eq!(text.matches("llingr_bandwidth_broker_info{").count(), 2);
    assert_eq!(value("broker_info", &["broker_host=\"a\""]).as_deref(), Some("1"));
    assert_eq!(value("broker_info", &["broker_host=\"b\""]).as_deref(), Some("1"));
    assert_eq!(
        value("last_collection_timestamp_seconds", &[]).as_deref(),
        Some("1700000000")
    );
    assert_eq!(value("broker_count", &[]).as_deref(), Some("0"), "the last packet's");
}

/// Gauges hold what the latest packet of the partition says.
#[test]
fn gauges_hold_the_latest_packet() {
    let (sink, registry) = sink_and_registry();
    for (partition, queue_depth, offset) in [(1, 5, 10), (2, 6, 20), (1, 3, 12)] {
        registry.apply(sink.handle(&MessageMetrics {
            partition,
            queue_depth,
            offset,
            ..base_metrics()
        }));
    }
    let text = registry.scrape();
    for (name, partition, want) in [
        ("queue_depth", 1, " 3"),
        ("current_offset", 1, " 12"),
        ("queue_depth", 2, " 6"),
        ("current_offset", 2, " 20"),
    ] {
        let line = text
            .lines()
            .find(|l| {
                l.starts_with(&format!("llingr_engine_{name}{{"))
                    && l.contains(&format!("partition=\"{partition}\""))
            })
            .expect("the gauge is set");
        assert!(line.ends_with(want), "{line}");
    }
}

/// Application bits and the commit-buffered bit show nowhere.
#[test]
fn unrelated_trait_bits_record_nothing() {
    let (sink, _) = sink_and_registry();
    let plain = sink.handle(&base_metrics()).len();
    let marked = sink.handle(&MessageMetrics {
        traits: !0x37,
        ..base_metrics()
    });
    assert_eq!(marked.len(), plain);
}

/// Every name is used once, and the counters come without their suffix.
#[test]
fn series_names_are_distinct() {
    let realised = Metrics::registry().0.realise("t", "g", "", "");
    let names: Vec<String> = realised
        .series
        .iter()
        .map(|s| format!("{}_{}", s.subsystem(), s.name()))
        .collect();
    assert_eq!(names.len(), 21);
    for (i, name) in names.iter().enumerate() {
        assert!(!names[..i].contains(name), "{name} is registered twice");
        assert!(!name.ends_with("_total"));
    }
    assert!(names.contains(&"engine_queue_wait_duration_seconds".to_string()));
    assert!(names.contains(&"bandwidth_last_collection_timestamp_seconds".to_string()));
}

/// Timestamps before the epoch are cut towards zero, like every other.
#[test]
fn collection_seconds_are_whole() {
    let (sink, _) = bandwidth_sink_and_registry();
    for (nanos, seconds) in [(1_999_999_999i64, 1i64), (-1_999_999_999, -1), (1, 0)] {
        let mut p = packet(vec![], vec![]);
        p.ts_unix_ns = nanos;
        let set = sink.handle(&p).into_iter().find_map(|u| match u {
            Update::Gauge {
                series: Series::LastCollection,
                value,
                ..
            } => Some(value),
            _ => None,
        });
        assert_eq!(set, Some(seconds));
    }
}

#[test]
fn requests_are_routed_by_path_and_method() {
    for (is_get, url, status) in [
        (true, "/metrics", 200),
        (true, "/metrics?", 200),
        (true, "/metrics?a=1?b=2", 200),
        (true, "/metrics/", 404),
        (true, "/", 404),
        (true, "", 404),
        (true, "?/metrics", 404),
        (false, "/metrics", 405),
        (false, "/other", 404),
        (false, "/other?/metrics", 404),
    ] {
        assert_eq!(route(is_get, url, "/metrics").status(), status, "{url}");
    }
}

/// Only the exposition is sent with a body and a content type.
#[test]
fn refusals_have_no_body() {
    let sent = ScrapeReply::Exposition.answer("# EOF\n".to_string());
    assert_eq!(sent.status, 200);
    assert_eq!(sent.content_type, Some(OPENMETRICS_CONTENT_TYPE));
    assert_eq!(sent.body, "# EOF\n");
    for (reply, status) in [
        (ScrapeReply::NotFound, 404),
        (ScrapeReply::MethodNotAllowed, 405),
    ] {
        let sent = reply.answer("# EOF\n".to_string());
        assert_eq!(sent.status, status);
        assert_eq!(sent.content_type, None);
        assert_eq!(sent.body, "");
    }
}

#[test]
fn activation_texts_are_exact() {
    assert_eq!(
        Metrics::serve("0.0.0.0:9464", "/m\"x").debug_text(),
        "Metrics { mode: \"serve\", addr: \"0.0.0.0:9464\", path: \"/m\\\"x\" }"
    );
    assert_eq!(
        Metrics::registry().0.debug_text(),
        "Metrics { mode: \"registry\" }"
    );
    assert_eq!(
        serve_listing_text("a", "b"),
        "Metrics { mode: \"serve\", addr: a, path: b }"
    );
    let handle = Metrics::registry().1;
    assert_eq!(handle.debug_text(false), "MetricsHandle { realised: false }");
    assert_eq!(handle.clone().debug_text(true), "MetricsHandle { realised: true }");
    assert_eq!(
        bind_failure_text("127.0.0.1:1", "permission denied"),
        "metrics endpoint failed to bind 127.0.0.1:1: permission denied"
    );
}
