//! The configuration document: its members, their order and their escaping.

use llingr_kafka::config::{config_json, BrokerConfig};
use llingr_kafka::DemuxConfig;
use llingr_nexus::{Adapter, AdapterOptions};
use std::time::Duration;

fn minimal_broker() -> BrokerConfig {
    BrokerConfig::new()
        .brokers("localhost:9092")
        .consumer_group("grp")
}

#[test]
fn minimal_config_json() {
    let json = config_json(
        "orders",
        &minimal_broker(),
        &DemuxConfig::new(),
        None,
        None,
        None,
    );
    assert_eq!(
        json,
        r#"{"adapter":"franz","brokers":"localhost:9092","topic":"orders","consumer_group":"grp"}"#
    );
}

#[test]
fn full_config_json() {
    let broker = BrokerConfig::new()
        .brokers("b1:9092,b2:9092")
        .consumer_group("grp")
        .kafka_option("auto.offset.reset", "earliest");
    let demux = DemuxConfig::new()
        .concurrent_keys(500)
        .poll_timeout(Duration::from_millis(150))
        .drain_timeout(Duration::from_secs(30))
        .worker_shards_count(32);
    let service = ("order-service".to_string(), "payments".to_string());
    let json = config_json("orders", &broker, &demux, Some(&service), None, None);

    assert!(json.contains(r#""adapter":"franz""#));
    assert!(json.contains(r#""kafka_config":{"auto.offset.reset":"earliest"}"#));
    assert!(json.contains(r#""service":{"name":"order-service","team":"payments"}"#));
    assert!(json.contains(r#""demux":{"#));
    assert!(json.contains(r#""concurrentKeys":500"#));
    assert!(json.contains(r#""pollTimeout":"150ms""#));
    assert!(json.contains(r#""drainTimeout":"30000ms""#));
    assert!(json.contains(r#""workerShardsCount":32"#));
}

/// Every one of the thirteen DemuxConfig tunables must serialise under
/// EXACTLY the Go config.DemuxConfig JSON tag. A typo in any tag compiles,
/// passes every other test, and silently reverts that tunable to the
/// engine default in production (Go ignores unknown keys).
#[test]
fn all_thirteen_demux_tags_match_go() {
    let demux = DemuxConfig::new()
        .concurrent_keys(500)
        .per_key_buffer_len(32)
        .poll_timeout(Duration::from_millis(150))
        .auto_commit_interval(Duration::from_secs(5))
        .drain_timeout(Duration::from_secs(30))
        .await_assignments_timeout(Duration::from_secs(50))
        .commit_ingest_channel_len(2000)
        .commit_partition_slice_len(400)
        .query_timeout(Duration::from_secs(5))
        .acquire_worker_timeout_circuit_breaker(Duration::from_secs(60))
        .worker_shards_count(32)
        .rebalance_pause_polling_timeout(Duration::from_secs(30))
        .acquire_commit_guard_timeout(Duration::from_secs(10));
    let json = config_json("t", &minimal_broker(), &demux, None, None, None);

    let expected = [
        r#""concurrentKeys":500"#,
        r#""perKeyBufferLen":32"#,
        r#""pollTimeout":"150ms""#,
        r#""autoCommitInterval":"5000ms""#,
        r#""drainTimeout":"30000ms""#,
        r#""awaitAssignmentsTimeout":"50000ms""#,
        r#""commitIngestChannelLen":2000"#,
        r#""commitPartitionSliceLen":400"#,
        r#""queryTimeout":"5000ms""#,
        r#""acquireWorkerTimeoutCircuitBreaker":"60000ms""#,
        r#""workerShardsCount":32"#,
        r#""rebalancePausePollingTimeout":"30000ms""#,
        r#""acquireCommitGuardTimeout":"10000ms""#,
    ];
    for tag in expected {
        assert!(json.contains(tag), "missing or renamed tag {tag} in {json}");
    }
}

/// The escaper's remaining branches: tab, carriage return, and the
/// generic control-character \u escape (an unescaped control char is
/// malformed JSON and would fail engine init).
#[test]
fn json_escaping_control_characters() {
    let broker = minimal_broker().kafka_option("key", "a\tb\rc\u{1}d");
    let json = config_json("t", &broker, &DemuxConfig::new(), None, None, None);
    let expected = "a\\tb\\rc\\u0001d";
    assert!(json.contains(expected), "{json}");
}

#[test]
fn json_escaping() {
    let broker = BrokerConfig::new()
        .brokers("localhost:9092")
        .consumer_group("group\\with\\backslashes")
        .kafka_option("key", "value\nwith\nnewlines");
    let json = config_json(
        "topic-with-\"quotes\"",
        &broker,
        &DemuxConfig::new(),
        None,
        None,
        None,
    );
    assert!(json.contains(r#"topic-with-\"quotes\""#));
    assert!(json.contains(r#"group\\with\\backslashes"#));
    assert!(json.contains(r#"value\nwith\nnewlines"#));
}

#[test]
fn adapter_options_applies_entries() {
    struct FakeOptions;
    impl AdapterOptions for FakeOptions {
        fn adapter(&self) -> Adapter {
            Adapter::Franz
        }
        fn entries(&self) -> Vec<(String, String)> {
            vec![("client.id".to_string(), "app-1".to_string())]
        }
    }

    // By value and by reference both work (blanket impl in nexus).
    let by_ref = &FakeOptions;
    let broker = minimal_broker()
        .adapter_options(by_ref.validate(), by_ref.entries())
        .adapter_options(FakeOptions.validate(), FakeOptions.entries());
    let json = config_json("t", &broker, &DemuxConfig::new(), None, None, None);
    assert!(json.contains(r#""client.id":"app-1""#));
}

#[test]
fn duplicate_kafka_options_last_write_wins() {
    let broker = minimal_broker()
        .kafka_option("session.timeout.ms", 6000)
        .kafka_option("session.timeout.ms", 9000);
    let json = config_json("t", &broker, &DemuxConfig::new(), None, None, None);
    assert!(json.contains(r#""session.timeout.ms":"9000""#), "{json}");
    assert!(
        !json.contains(r#""session.timeout.ms":"6000""#),
        "duplicate key must be deduped: {json}"
    );
    assert_eq!(json.matches("session.timeout.ms").count(), 1);
}

#[test]
fn last_write_wins_across_kafka_option_and_adapter_options() {
    struct FakeOptions;
    impl AdapterOptions for FakeOptions {
        fn adapter(&self) -> Adapter {
            Adapter::Franz
        }
        fn entries(&self) -> Vec<(String, String)> {
            vec![("client.id".to_string(), "from-options".to_string())]
        }
    }

    // adapter_options called after kafka_option: its value wins.
    let broker = minimal_broker()
        .kafka_option("client.id", "from-raw")
        .adapter_options(FakeOptions.validate(), FakeOptions.entries());
    let json = config_json("t", &broker, &DemuxConfig::new(), None, None, None);
    assert!(json.contains(r#""client.id":"from-options""#), "{json}");
    assert!(!json.contains("from-raw"));
}

#[test]
fn kafka_option_accepts_numbers_and_bools() {
    let broker = minimal_broker()
        .kafka_option("fetch.min.bytes", 1024)
        .kafka_option("enable.partition.eof", false);
    let json = config_json("t", &broker, &DemuxConfig::new(), None, None, None);
    assert!(json.contains(r#""fetch.min.bytes":"1024""#));
    assert!(json.contains(r#""enable.partition.eof":"false""#));
}

#[test]
fn adapter_options_validation_failure_is_deferred() {
    struct BrokenOptions;
    impl AdapterOptions for BrokenOptions {
        fn adapter(&self) -> Adapter {
            Adapter::Franz
        }
        fn entries(&self) -> Vec<(String, String)> {
            Vec::new()
        }
        fn validate(&self) -> Result<(), String> {
            Err("conflicting configuration".to_string())
        }
    }

    let broker = minimal_broker().adapter_options(BrokenOptions.validate(), BrokenOptions.entries());
    assert_eq!(broker.deferred_error(), Some("conflicting configuration"));
}

/// Engine timing options are millisecond-granular: a sub-millisecond
/// Duration must round UP, never silently serialise as "0ms".
#[test]
fn config_sub_millisecond_duration_rounds_up() {
    let demux = DemuxConfig::new().poll_timeout(Duration::from_micros(500));
    let json = config_json("t", &minimal_broker(), &demux, None, None, None);
    assert!(json.contains(r#""pollTimeout":"1ms""#), "{json}");
}

/// The engine builder consumes its configs; clones must serialise
/// identically, including a recorded deferred error, so a retry after a
/// transient startup failure starts from the same configuration.
#[test]
fn clone_preserves_config_for_retry() {
    let broker = minimal_broker().kafka_option("client.id", "app-1");
    let demux = DemuxConfig::new()
        .concurrent_keys(500)
        .poll_timeout(Duration::from_millis(150));
    let service = ("svc".to_string(), "team".to_string());
    assert_eq!(
        config_json(
            "t",
            &broker.clone(),
            &demux.clone(),
            Some(&service),
            None,
            None
        ),
        config_json("t", &broker, &demux, Some(&service), None, None),
    );
    assert_eq!(broker.clone().deferred_error(), broker.deferred_error());
}

/// Bandwidth intervals appear only when set, with millisecond strings.
#[test]
fn bandwidth_intervals_serialise_when_set() {
    let json = config_json(
        "t",
        &minimal_broker(),
        &DemuxConfig::new(),
        None,
        Some(Duration::from_secs(5)),
        Some(Duration::from_secs(15)),
    );
    assert!(
        json.contains(r#""bandwidth":{"statsInterval":"5000ms","flushInterval":"15000ms"}"#),
        "{json}"
    );

    let stats_only = config_json(
        "t",
        &minimal_broker(),
        &DemuxConfig::new(),
        None,
        Some(Duration::from_secs(1)),
        None,
    );
    assert!(
        stats_only.contains(r#""bandwidth":{"statsInterval":"1000ms"}"#),
        "{stats_only}"
    );

    let none = config_json(
        "t",
        &minimal_broker(),
        &DemuxConfig::new(),
        None,
        None,
        None,
    );
    assert!(!none.contains("bandwidth"));
}

#[test]
fn no_demux_object_when_no_tunables() {
    let json = config_json(
        "t",
        &minimal_broker(),
        &DemuxConfig::new(),
        None,
        None,
        None,
    );
    assert!(!json.contains("demux"));
}

/// The first recorded failure is the one that is reported, and a broken
/// builder's entries are taken all the same.
#[test]
fn first_validation_failure_is_kept() {
    let broker = minimal_broker()
        .adapter_options(Err("first".to_string()), vec![("a".to_string(), "1".to_string())])
        .adapter_options(Err("second".to_string()), Vec::new())
        .adapter_options(Ok(()), Vec::new());
    assert_eq!(broker.deferred_error(), Some("first"));
    assert_eq!(broker.consumer_group_value(), "grp");
    assert_eq!(broker.deduped_kafka_config(), vec![("a".to_string(), "1".to_string())]);
    assert_eq!(broker.clone().deferred_error(), Some("first"));
}

/// The whole document with everything set, member by member.
#[test]
fn document_is_written_in_a_fixed_order() {
    let broker = minimal_broker()
        .kafka_option("b", "1")
        .kafka_option("a", 2u64)
        .kafka_option("b", true);
    let demux = DemuxConfig::new()
        .worker_shards_count(8)
        .concurrent_keys(0)
        .query_timeout(Duration::ZERO);
    let service = ("svc".to_string(), "team".to_string());
    let json = config_json(
        "t",
        &broker,
        &demux,
        Some(&service),
        None,
        Some(Duration::from_nanos(1)),
    );
    assert_eq!(
        json,
        concat_text(&[
            r#"{"adapter":"franz","brokers":"localhost:9092","topic":"t","consumer_group":"grp","#,
            r#""kafka_config":{"b":"true","a":"2"},"service":{"name":"svc","team":"team"},"#,
            r#""demux":{"concurrentKeys":0,"workerShardsCount":8,"queryTimeout":"0ms"},"#,
            r#""bandwidth":{"flushInterval":"1ms"}}"#,
        ])
    );
}

fn concat_text(parts: &[&str]) -> String {
    parts.join("")
}

/// A repeated key keeps the place where it was first written and takes the
/// value that was written last.
#[test]
fn repeated_keys_keep_their_first_place() {
    let broker = minimal_broker()
        .kafka_option("a", "1")
        .kafka_option("b", "2")
        .kafka_option("a", "3");
    assert_eq!(
        broker.deduped_kafka_config(),
        vec![
            ("a".to_string(), "3".to_string()),
            ("b".to_string(), "2".to_string()),
        ]
    );
}

/// Whatever the texts hold, no control character stands in the document, and a
/// JSON parser reads the same texts back.
#[test]
fn document_reads_back_through_a_json_parser() {
    let nasty = "q\"b\\n\n\r\t\u{0}\u{1f}\u{7f}\u{e9}\u{1F600}";
    let broker = BrokerConfig::new()
        .brokers(nasty)
        .consumer_group(nasty)
        .kafka_option(nasty, nasty);
    let service = (nasty.to_string(), nasty.to_string());
    let json = config_json(nasty, &broker, &DemuxConfig::new(), Some(&service), None, None);
    assert!(json.chars().all(|c| c >= ' '));
    let value: serde_json::Value = serde_json::from_str(&json).expect("valid JSON");
    assert_eq!(value["adapter"], "franz");
    assert_eq!(value["brokers"], nasty);
    assert_eq!(value["topic"], nasty);
    assert_eq!(value["consumer_group"], nasty);
    assert_eq!(value["kafka_config"][nasty], nasty);
    assert_eq!(value["service"]["name"], nasty);
    assert_eq!(value["service"]["team"], nasty);
}

/// Whole milliseconds: a started one counts, and zero stays zero.
#[test]
fn durations_are_whole_milliseconds() {
    for (nanos, ms) in [(0u64, "0ms"), (1, "1ms"), (1_000_000, "1ms"), (1_000_001, "2ms")] {
        let demux = DemuxConfig::new().poll_timeout(Duration::from_nanos(nanos));
        let object = demux.demux_json().expect("one tunable is set");
        assert_eq!(object, format!("{{\"pollTimeout\":\"{ms}\"}}"));
    }
    assert!(DemuxConfig::new().demux_json().is_none());
    assert!(DemuxConfig::default().clone().demux_json().is_none());
}
