//! Bringing the engine up: the steps, the refusals and their texts.

use llingr_kafka::engine::{
    abi_mismatch_error, init_failure_text, run_result, take_snapshot_json, Build, BuildAction,
    BuildEvent,
};
use llingr_kafka::metrics::{bind_failure_text, Mode};
use llingr_kafka::snapshot::{
    Concurrency, PartitionOffsets, PreCommits, Shard, Snapshot, Summary, Throughput,
    ThroughputWindow,
};
use llingr_kafka::{Builder, DemuxConfig, Llingr, LlingrError, Metrics, Options};
use std::time::Duration;

struct NoopProcessor;
struct NoopDeadLetter;

fn builder() -> Builder<NoopProcessor, NoopDeadLetter, ()> {
    Builder::new("t", NoopProcessor, NoopDeadLetter)
        .brokers("b:9092")
        .consumer_group("g")
}

/// The error that an action fails with.
fn refusal(action: BuildAction) -> LlingrError {
    match action {
        BuildAction::Fail { error } => error,
        BuildAction::Restore { error } => error,
        BuildAction::Withdraw { error } => error,
        _ => panic!("the build goes on"),
    }
}

/// Bring a build to the point where the lock is held.
fn up_to_lock(build: &mut Build) {
    assert!(matches!(build.advance(BuildEvent::Begin), BuildAction::QueryAbi));
    assert!(matches!(
        build.advance(BuildEvent::AbiReported { version: 1 }),
        BuildAction::TakeLock
    ));
}

/// Bring an engine up.
fn engine() -> Llingr {
    let mut build = builder().build().build;
    up_to_lock(&mut build);
    assert!(matches!(
        build.advance(BuildEvent::Locked { inited: false }),
        BuildAction::Publish
    ));
    assert!(matches!(
        build.advance(BuildEvent::Published { previous: false }),
        BuildAction::Initialise { .. }
    ));
    let done = build.advance(BuildEvent::Initialised {
        rc: 0,
        err_buf: Vec::new(),
        err_len: 0,
    });
    match done {
        BuildAction::Finish { engine } => engine,
        _ => panic!("the engine is up"),
    }
}

/// The exact text format is a contract with log/alert tooling that greps
/// "llingr error <code>: <message>".
#[test]
fn llingr_error_display_format_and_code() {
    let err = LlingrError::new(-5, "conflicting configuration");
    assert_eq!(
        err.to_string(),
        "llingr error -5: conflicting configuration"
    );
    assert_eq!(err.code(), -5);
}

/// Without an initialised engine there is no document, which must be reported
/// as a clean error.
#[test]
fn take_snapshot_before_init_is_a_clean_error() {
    let err = match take_snapshot_json(None) {
        Err(e) => e,
        Ok(json) => panic!("expected an error before init, got snapshot: {json}"),
    };
    assert_eq!(err.code(), -1);
    assert!(err.to_string().contains("not initialised"), "{}", err.to_string());
}

/// A deferred config error, here the typed-vs-string security conflict on
/// Options, fails the build cleanly BEFORE any global state is touched, and a
/// retry is possible.
#[test]
fn build_surfaces_deferred_config_error() {
    for _ in 0..2 {
        let mut build = builder()
            .options(
                Options::new()
                    .sasl_plain("u", "p")
                    .kafka_option("sasl.password", "other"),
            )
            .build()
            .build;
        let err = refusal(build.advance(BuildEvent::Begin));
        assert_eq!(err.code(), -5);
        assert!(err.to_string().contains("kafka_option"), "{}", err.to_string());
    }
}

/// An unbindable scrape endpoint fails the build with a clean error, code -6,
/// naming the address, BEFORE handler publication, and the failure is
/// retryable.
#[test]
fn metrics_bind_failure_is_a_clean_error() {
    for _ in 0..2 {
        let parts = builder()
            .metrics(Metrics::serve("127.0.0.1:1", "/metrics"))
            .build();
        let mut build = parts.build;
        up_to_lock(&mut build);
        assert!(matches!(
            build.advance(BuildEvent::Locked { inited: false }),
            BuildAction::Realise
        ));
        let Mode::Serve(endpoint) = parts.metrics.expect("metrics are active").mode else {
            panic!("serve mode has an endpoint");
        };
        let text = bind_failure_text(&endpoint.addr, "permission denied");
        let err = refusal(build.advance(BuildEvent::MetricsFailed { text }));
        assert_eq!(err.code(), -6);
        assert!(err.to_string().contains("127.0.0.1:1"), "{}", err.to_string());
    }
}

#[test]
fn run_result_maps_every_code_to_its_documented_text() {
    assert!(run_result(0).is_ok());

    let cases = [
        (-1, "engine not initialised"),
        (-2, "subscribe failed"),
        (-3, "engine panicked (recovered at FFI boundary)"),
        (-99, "unknown runtime error"),
        (7, "unknown runtime error"), // positive garbage also maps to the default text
    ];
    for (rc, want) in cases {
        let err = run_result(rc).expect_err("non-zero rc is an error");
        assert_eq!(err.code(), rc);
        assert_eq!(err.to_string(), format!("llingr error {rc}: {want}"));
    }
}

#[test]
fn abi_mismatch_error_text_is_the_documented_shape() {
    let err = abi_mismatch_error(1, 2);
    assert_eq!(err.code(), -1);
    assert_eq!(
        err.to_string(),
        "llingr error -1: llingr ABI mismatch: crate expects 1, library reports 2 \
         (rebuild libllingr to match this crate)"
    );
}

/// With no bridge-written text, each init return code maps to its stable
/// fallback.
#[test]
fn init_failure_fallback_text_per_code() {
    let empty: [u8; 4] = [0; 4];
    let cases = [
        (-1, "already initialised"),
        (-2, "invalid configuration JSON"),
        (
            -3,
            "missing required config (brokers, topic, or consumer_group)",
        ),
        (-4, "failed to create adapter or connect to broker"),
        (-5, "invalid adapter or engine option"),
        (-6, "unknown initialisation error"),
        (42, "unknown initialisation error"),
    ];
    for (rc, want) in cases {
        assert_eq!(init_failure_text(rc, &empty, 0), want, "rc {rc}");
    }
}

/// When the bridge wrote error text, it wins over the fallback regardless of
/// the code, and only err_len bytes of the buffer are read.
#[test]
fn init_failure_bridge_text_wins_and_is_length_bounded() {
    let text = "franz adapter: broker unreachable";
    let mut buf = [0u8; 64];
    for (i, &b) in text.as_bytes().iter().enumerate() {
        buf[i] = b;
    }
    assert_eq!(
        init_failure_text(-4, &buf, text.len() as i32),
        text,
        "bridge-written text wins over the fallback"
    );
    assert_eq!(
        init_failure_text(-4, &buf, 5),
        "franz",
        "only err_len bytes are read"
    );
}

/// Engine error strings have no UTF-8 guarantee across the boundary: invalid
/// bytes decode lossily to the replacement character, never a panic.
#[test]
fn init_failure_text_decodes_invalid_utf8_lossily() {
    let bytes: [u8; 5] = [0x66, 0x6f, 0x6f, 0xff, 0xfe]; // "foo" + invalid
    let mut buf = [0u8; 8];
    for (i, &b) in bytes.iter().enumerate() {
        buf[i] = b;
    }
    let text = init_failure_text(-5, &buf, bytes.len() as i32);
    assert!(text.starts_with("foo"), "{text}");
    assert!(
        text.contains('\u{FFFD}'),
        "invalid bytes become the replacement character: {text}"
    );
}

// -- the steps ------------------------------------------------------------------

/// After a refused build a corrected one comes up.
#[test]
fn corrected_build_succeeds_after_a_failure() {
    let refused = |serve: bool| {
        let mut configured = builder();
        if serve {
            configured = configured.metrics(Metrics::serve("127.0.0.1:0", "/metrics"));
        }
        let mut build = configured.build().build;
        up_to_lock(&mut build);
        build.advance(BuildEvent::Locked { inited: false });
        if serve {
            build.advance(BuildEvent::MetricsReady);
        }
        build
    };
    for serve in [true, false] {
        let mut build = refused(serve);
        let err = refusal(build.advance(BuildEvent::Published { previous: true }));
        assert_eq!(err.code(), -1);

        let mut build = refused(serve);
        build.advance(BuildEvent::Published { previous: false });
        let err = refusal(build.advance(BuildEvent::Initialised {
            rc: -4,
            err_buf: "größer".as_bytes().to_vec(),
            err_len: 8,
        }));
        assert_eq!(err.to_string(), "llingr error -4: größer");

        let mut build = refused(serve);
        build.advance(BuildEvent::Published { previous: false });
        assert!(matches!(
            build.advance(BuildEvent::Initialised {
                rc: 0,
                err_buf: Vec::new(),
                err_len: 0,
            }),
            BuildAction::Finish { .. }
        ));
    }
}

/// The engine is started on the configuration document, and the bandwidth
/// callback is registered exactly where metrics are active.
#[test]
fn engine_starts_on_the_document() {
    for with_metrics in [false, true] {
        let mut configured = builder()
            .demux(DemuxConfig::new().concurrent_keys(5))
            .service("svc", "team")
            .bandwidth_stats_interval(Duration::from_secs(2))
            .bandwidth_flush_interval(Duration::from_millis(3))
            .options(Options::new().client_id("app"));
        if with_metrics {
            configured = configured.metrics(Metrics::registry().0);
        }
        let parts = configured.build();
        assert_eq!(parts.topic, "t");
        assert!(parts.shutdown.is_none());
        let mut build = parts.build;
        up_to_lock(&mut build);
        let action = build.advance(BuildEvent::Locked { inited: false });
        if with_metrics {
            assert!(matches!(action, BuildAction::Realise));
            let realised = parts.metrics.expect("metrics are active");
            assert!(!realised.mode.is_serve());
            assert_eq!(realised.series.len(), 21);
            assert_eq!(
                realised.message_sink.labels(4),
                [
                    ("topic", "t"),
                    ("consumer_group", "g"),
                    ("service", "svc"),
                    ("team", "team"),
                    ("partition", "4"),
                ]
                .map(|(k, v)| (k.to_string(), v.to_string()))
                .to_vec()
            );
            assert!(matches!(
                build.advance(BuildEvent::MetricsReady),
                BuildAction::Publish
            ));
        } else {
            assert!(parts.metrics.is_none());
            assert!(matches!(action, BuildAction::Publish));
        }
        match build.advance(BuildEvent::Published { previous: false }) {
            BuildAction::Initialise { json, bandwidth } => {
                assert_eq!(bandwidth, with_metrics);
                assert_eq!(
                    json,
                    "{\"adapter\":\"franz\",\"brokers\":\"b:9092\",\"topic\":\"t\",\
                     \"consumer_group\":\"g\",\"kafka_config\":{\"client.id\":\"app\"},\
                     \"service\":{\"name\":\"svc\",\"team\":\"team\"},\
                     \"demux\":{\"concurrentKeys\":5},\
                     \"bandwidth\":{\"statsInterval\":\"2000ms\",\"flushInterval\":\"3ms\"}}"
                );
            }
            _ => panic!("the engine is started"),
        }
    }
}

/// Every refusal of a build, with its code and text.
#[test]
fn refusals_are_exact() {
    let mut build = builder().build().build;
    build.advance(BuildEvent::Begin);
    let err = refusal(build.advance(BuildEvent::AbiReported { version: 2 }));
    assert_eq!(
        err.to_string(),
        "llingr error -1: llingr ABI mismatch: crate expects 1, library reports 2 \
         (rebuild libllingr to match this crate)"
    );

    let mut build = builder().build().build;
    up_to_lock(&mut build);
    let err = refusal(build.advance(BuildEvent::Locked { inited: true }));
    assert_eq!(
        err.to_string(),
        "llingr error -1: only one llingr instance per process"
    );

    let mut build = builder().build().build;
    up_to_lock(&mut build);
    build.advance(BuildEvent::Locked { inited: false });
    let action = build.advance(BuildEvent::Published { previous: true });
    assert!(matches!(action, BuildAction::Restore { .. }));
    assert_eq!(
        refusal(action).to_string(),
        "llingr error -1: handler set already published"
    );

    let mut build = builder().build().build;
    up_to_lock(&mut build);
    build.advance(BuildEvent::Locked { inited: false });
    build.advance(BuildEvent::Published { previous: false });
    let action = build.advance(BuildEvent::Initialised {
        rc: -4,
        err_buf: b"no route to broker....".to_vec(),
        err_len: 18,
    });
    assert!(matches!(action, BuildAction::Withdraw { .. }));
    assert_eq!(
        refusal(action).to_string(),
        "llingr error -4: no route to broker"
    );
}

/// A NUL in a configured text is escaped, so it never stops a build.
#[test]
fn nul_in_a_text_does_not_stop_a_build() {
    let mut build = Builder::new("t\0opic", (), ()).build().build;
    up_to_lock(&mut build);
    assert!(matches!(
        build.advance(BuildEvent::Locked { inited: false }),
        BuildAction::Publish
    ));
    match build.advance(BuildEvent::Published { previous: false }) {
        BuildAction::Initialise { json, .. } => {
            assert!(json.contains("\"topic\":\"t\\u0000opic\""), "{json}");
        }
        _ => panic!("the engine is started"),
    }
}

/// The shutdown handler and the others come out of the builder as they went in.
#[test]
fn handlers_come_out_as_they_went_in() {
    let parts = Builder::new("t", 1, "dead").shutdown("first").shutdown(2.5).build();
    assert_eq!(parts.process, 1);
    assert_eq!(parts.dead_letter, "dead");
    assert_eq!(parts.shutdown, Some(2.5));
}

// -- the running engine ---------------------------------------------------------

fn snapshot() -> Snapshot {
    Snapshot {
        summary: Summary {
            topic_name: "orders".to_string(),
            assigned_partition_count: 1,
            total_processed: 2,
            last_rebalance_time: "2026-07-16T14:30:05.123Z".to_string(),
        },
        throughput: Throughput {
            windows: vec![ThroughputWindow {
                from_time: "a".to_string(),
                to_time: "b".to_string(),
                processed_count: 2,
                dead_letter_count: 0,
            }],
            total_processed: 2,
            total_dead_lettered: 0,
            avg_process_duration: "1ms".to_string(),
            max_process_duration: "2ms".to_string(),
            avg_end_to_end_duration: "3ms".to_string(),
            max_end_to_end_duration: "4ms".to_string(),
            min_end_to_end_duration: "1ms".to_string(),
        },
        pre_commits: PreCommits {
            partitions: vec![PartitionOffsets {
                partition: 0,
                committed_offset: -1,
                highest_ready_offset: -1,
                max_offset_seen: 7,
                gap_buffer_depth: 0,
                assigned: true,
            }],
        },
        concurrency: Concurrency {
            guard_active: 0,
            guard_capacity: 1,
            overflow_active: 0,
            overflow_capacity: 1,
            commit_ingest_active: 0,
            commit_ingest_capacity: 1,
        },
        shards: vec![Shard {
            shard: 0,
            active_workers: 1,
            pooled_workers: 0,
        }],
    }
}

#[test]
fn snapshots_are_handed_on_or_refused() {
    let engine = engine();
    let given = snapshot();
    assert_eq!(engine.snapshot(Some(Ok(given.clone()))).expect("parsed"), given);
    let err = engine
        .snapshot(Some(Err("expected value at line 1".to_string())))
        .expect_err("not parsed");
    assert_eq!(
        err.to_string(),
        "llingr error -2: snapshot document did not parse: expected value at line 1"
    );
    let err = engine.snapshot(None).expect_err("no engine");
    assert_eq!(err.to_string(), "llingr error -1: engine not initialised");

    assert_eq!(
        engine.snapshot_json(Some(b"{\"a\":\"\xff\"}")).expect("a document"),
        "{\"a\":\"\u{FFFD}\"}"
    );
    assert_eq!(engine.snapshot_json(None).expect_err("no engine").code(), -1);
}

#[test]
fn running_ends_with_the_engines_code() {
    let engine = engine();
    assert!(engine.run(0).is_ok());
    assert_eq!(
        engine.run(-2).expect_err("refused").to_string(),
        "llingr error -2: subscribe failed"
    );
}
