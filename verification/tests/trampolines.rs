//! The callback boundary: decoding what the engine hands over, and the replies
//! that it gets back.

use llingr_kafka::ffi::{BrokerInfoRaw, HeaderRaw, PartitionBandwidthRaw, LLINGR_ABI_VERSION};
use llingr_kafka::logging::{log_record, LogLevel};
use llingr_kafka::trampolines::{
    borrow_headers, borrowed_len, deadletter_error, deadletter_reply, decode_bandwidth,
    decode_message, decode_metrics, decode_timestamp, process_reply, shutdown_reason, write_c_err,
    DeadLetterOutcome, ErrorSlot, Message, ProcessOutcome, Timestamp,
};
use llingr_nexus::Traits;

type Seen = (Timestamp, Vec<(String, Option<Vec<u8>>)>, Option<Vec<u8>>);

/// A handler that dispatches on the record key, and records what it saw.
fn handle(msg: &Message, seen: &mut Vec<Seen>) -> ProcessOutcome {
    match msg.key {
        Some(b"err-marker") => ProcessOutcome::Failed {
            text: "custom failure text".to_string(),
        },
        Some(b"panic-marker") => ProcessOutcome::Panicked,
        Some(b"traits20") => ProcessOutcome::Processed {
            traits: Traits::with_bit(20).raw_with_framework(),
        },
        _ => {
            let headers = msg
                .headers
                .iter()
                .map(|h| (h.key.to_string(), h.value.map(<[u8]>::to_vec)))
                .collect();
            seen.push((msg.timestamp, headers, msg.value.map(<[u8]>::to_vec)));
            ProcessOutcome::Processed {
                traits: Traits::none().raw_with_framework(),
            }
        }
    }
}

fn slot(capacity: i32) -> ErrorSlot {
    ErrorSlot {
        buffer_null: false,
        capacity,
        length_null: false,
    }
}

/// One process callback; returns (rc, traits, error text).
fn call_process(key: &str, value: &[u8], offset: i64) -> (i32, i64, String) {
    let msg = decode_message(
        key.as_bytes(),
        value,
        value.len() as i32,
        "test-topic",
        0,
        offset,
        0,
        0,
        &[],
    );
    assert_eq!(msg.topic, "test-topic");
    assert_eq!(msg.partition, 0);
    assert_eq!(msg.offset, offset);
    let reply = process_reply(handle(&msg, &mut Vec::new()), false, slot(256));
    let text = reply.error.unwrap_or_default();
    assert_eq!(reply.error_len, Some(text.len() as i32));
    (
        reply.code,
        reply.traits.unwrap_or(0),
        String::from_utf8(text).expect("whole characters"),
    )
}

/// One process callback with a timestamp and headers; returns the return code
/// and what the handler saw.
fn call_process_meta(ts_kind: i8, ts_millis: i64, headers: &[HeaderRaw]) -> (i32, Seen) {
    let msg = decode_message(
        b"meta-probe",
        b"v",
        1,
        "test-topic",
        0,
        2001,
        ts_kind,
        ts_millis,
        headers,
    );
    let mut seen = Vec::new();
    let reply = process_reply(handle(&msg, &mut seen), false, slot(256));
    (reply.code, seen.remove(0))
}

/// One process callback with a raw value length.
fn call_process_raw_value(value: &[u8], value_len: i32) -> (i32, Option<Vec<u8>>) {
    let msg = decode_message(b"value-probe", value, value_len, "test-topic", 0, 3001, 0, 0, &[]);
    let mut seen = Vec::new();
    let reply = process_reply(handle(&msg, &mut seen), false, slot(256));
    (reply.code, seen.remove(0).2)
}

/// A raw header over a key and an optional value; a length of -1 marks a null
/// value.
fn header_raw<'a>(key: &'a [u8], value: Option<&'a [u8]>) -> HeaderRaw<'a> {
    match value {
        None => HeaderRaw {
            key,
            value: &[],
            value_len: -1,
        },
        Some(v) => HeaderRaw {
            key,
            value: v,
            value_len: v.len() as i32,
        },
    }
}

#[test]
fn abi_version_is_v1() {
    assert_eq!(LLINGR_ABI_VERSION, 1);
}

#[test]
fn process_carries_timestamp_and_headers() {
    // Order preserved; a null value (None) stays distinct from an empty
    // value (Some(&[])).
    let headers = [
        header_raw(b"trace-id", Some(b"abc123")),
        header_raw(b"content-type", Some(b"application/json")),
        header_raw(b"tombstone", None),
        header_raw(b"empty-val", Some(b"")),
    ];
    let (rc, (ts, hdrs, _)) = call_process_meta(1, 1_700_000_000_000, &headers);
    assert_eq!(rc, 0);
    assert_eq!(
        ts,
        Timestamp::CreateTime {
            millis: 1_700_000_000_000
        },
        "ts_kind=1 maps to CreateTime with the millis intact"
    );
    assert_eq!(hdrs.len(), 4, "all headers delivered in order");
    assert_eq!(hdrs[0], ("trace-id".to_string(), Some(b"abc123".to_vec())));
    assert_eq!(
        hdrs[1],
        (
            "content-type".to_string(),
            Some(b"application/json".to_vec())
        )
    );
    assert_eq!(
        hdrs[2],
        ("tombstone".to_string(), None),
        "value_len == -1 round-trips as a null value"
    );
    assert_eq!(
        hdrs[3],
        ("empty-val".to_string(), Some(Vec::new())),
        "empty value stays Some, distinct from null"
    );
}

#[test]
fn process_without_headers_sees_empty_and_not_available() {
    let (rc, (ts, hdrs, _)) = call_process_meta(0, 0, &[]);
    assert_eq!(rc, 0);
    assert_eq!(
        ts,
        Timestamp::NotAvailable,
        "ts_kind=0 maps to NotAvailable"
    );
    assert!(hdrs.is_empty(), "no headers when count is zero");
}

#[test]
fn f5_process_error_text_is_reported() {
    let (rc, _t, err) = call_process("err-marker", b"v", 1001);
    assert_eq!(rc, 1, "an Err return must signal failure");
    assert_eq!(
        err, "custom failure text",
        "handler's own text must be reported, not a synthetic code"
    );
}

#[test]
fn f7_panic_is_contained_and_reported() {
    let (rc, _t, err) = call_process("panic-marker", b"v", 1002);
    assert_eq!(rc, 1, "a panicking handler routes to dead letter");
    assert_eq!(err, "panic in process callback");
}

#[test]
fn process_success_sets_custom_traits() {
    let (rc, traits, err) = call_process("traits20", b"v", 1003);
    assert_eq!(rc, 0);
    assert!(err.is_empty());
    assert_eq!(traits, 1 << 20, "bit 20 set, framework bits masked");
}

/// value_len == -1 is a null value (a tombstone): the handler must see
/// None, distinct from an empty value. A regression here silently breaks
/// delete handling on log-compacted topics.
#[test]
fn tombstone_value_maps_to_none() {
    let (rc, value) = call_process_raw_value(&[], -1);
    assert_eq!(rc, 0);
    assert_eq!(value, None, "value_len == -1 is None");
}

/// value_len == 0 is an empty value: Some(&[]), NOT None. The null/empty
/// distinction must hold in both directions.
#[test]
fn empty_value_stays_some_and_distinct_from_null() {
    let (rc, value) = call_process_raw_value(&[], 0);
    assert_eq!(rc, 0);
    assert_eq!(
        value,
        Some(Vec::new()),
        "empty value is Some(empty), distinct from a tombstone"
    );
}

#[test]
fn nonempty_value_arrives_byte_identical() {
    let payload = b"\x00\xff binary bytes";
    let (rc, value) = call_process_raw_value(payload, payload.len() as i32);
    assert_eq!(rc, 0);
    assert_eq!(value, Some(payload.to_vec()));
}

/// Every one of the nine metrics arguments must land on ITS OWN field. Five
/// are same-typed adjacent i64s; distinct sentinels make any swap visible. All
/// i64 sentinels exceed 32 bits, so a truncation would also fail here.
#[test]
fn f2_metrics_fields_map_one_to_one_and_carry_full_64_bits() {
    // App bit 45 plus framework bits 0, 1, 3: the metrics path forwards
    // the FULL bitfield, framework bits included.
    let traits_raw: i64 = ((1u64 << 45) | 0b1011) as i64;
    let offset: i64 = 5_000_000_001;
    let m = decode_metrics(
        traits_raw,
        71, // queue_depth
        72, // partition
        offset,
        5_000_000_002,             // process_duration_ns
        5_000_000_003,             // deadletter_duration_ns
        1_900_000_000_000_000_004, // read_time_ns
        1_900_000_000_000_000_005, // process_start_time_ns
        1_900_000_000_000_000_006, // watermark_advance_time_ns
    );
    assert_eq!(
        m.traits,
        (1u64 << 45) | 0b1011,
        "full trait bitfield, framework bits included"
    );
    let traits = Traits::from_raw(m.traits);
    assert!(traits.has_process_error(), "framework bit 0 readable");
    assert!(traits.has_process_panic(), "framework bit 1 readable");
    assert!(traits.has_commit_buffered(), "framework bit 3 readable");
    assert_eq!(m.offset, offset);
    assert_eq!(m.queue_depth, 71);
    assert_eq!(m.partition, 72);
    assert_eq!(m.process_duration_ns, 5_000_000_002);
    assert_eq!(m.deadletter_duration_ns, 5_000_000_003);
    assert_eq!(m.read_time_ns, 1_900_000_000_000_000_004);
    assert_eq!(m.process_start_time_ns, 1_900_000_000_000_000_005);
    assert_eq!(m.watermark_advance_time_ns, 1_900_000_000_000_000_006);
    let negative = decode_metrics(-1, 0, 0, 0, 0, 0, 0, 0, 0);
    assert_eq!(negative.traits, u64::MAX, "the sign bit is a trait bit");
}

#[test]
fn f1_deadletter_tolerates_non_utf8_error() {
    // Engine error strings carry no UTF-8 guarantee; feed raw invalid bytes.
    let bad = [0x66u8, 0x6f, 0x6f, 0xff, 0xfe]; // "foo" + two invalid bytes
    let msg = deadletter_error(&bad);
    assert!(msg.starts_with("foo"), "valid prefix preserved");
    assert!(
        msg.contains('\u{FFFD}'),
        "invalid bytes became the replacement char, not UB"
    );
}

/// A panic in the dead-letter handler is answered with rc 1.
#[test]
fn deadletter_panic_is_contained_at_the_boundary() {
    let rc = deadletter_reply(DeadLetterOutcome::Panicked);
    assert_eq!(rc, 1, "panic reports failure, does not unwind");
}

/// A dead-letter handler returning Err is reported to the bridge as rc 1
/// (counted, not retried); Ok is rc 0.
#[test]
fn deadletter_error_return_maps_to_rc_1() {
    assert_eq!(deadletter_reply(DeadLetterOutcome::Failed), 1);
    assert_eq!(deadletter_reply(DeadLetterOutcome::Recorded), 0);
    assert_eq!(deadletter_reply(DeadLetterOutcome::NoDeadLetterHandler), 0);
    assert_eq!(deadletter_reply(DeadLetterOutcome::NoHandlers), -1);
}

/// ts_kind=2 maps to LogAppendTime (broker ingestion time), distinct from
/// CreateTime: a 1/2 swap would silently mislabel every record timestamp.
#[test]
fn ts_kind_2_maps_to_log_append_time() {
    let (rc, (ts, _, _)) = call_process_meta(2, 555, &[]);
    assert_eq!(rc, 0);
    assert_eq!(
        ts,
        Timestamp::LogAppendTime { millis: 555 },
        "kind 2 is LogAppendTime, not CreateTime"
    );
}

#[test]
fn f1_shutdown_tolerates_non_utf8_reason() {
    let bad = [0xffu8, 0xfe];
    let reason = shutdown_reason(&bad);
    assert!(
        reason.contains('\u{FFFD}'),
        "lossy decode produced a valid string from invalid reason bytes"
    );
    assert_eq!(shutdown_reason(b"drained"), "drained");
    assert_eq!(shutdown_reason(b""), "unknown");
}

#[test]
fn log_round_trip_with_level_mapping() {
    let msg = "subscription started: topic=orders";
    let record = log_record(2, msg.as_bytes());
    assert!(
        record.level == LogLevel::Warn && record.message == msg,
        "warn-level log line must arrive intact"
    );
    assert_eq!(record.target, "llingr");
}

#[test]
fn log_tolerates_non_utf8_and_unknown_level() {
    let bad = [0x6cu8, 0x6f, 0x67, 0xff]; // "log" + invalid byte
    let record = log_record(42, &bad);
    assert!(
        record.level == LogLevel::Info
            && record.message.starts_with("log")
            && record.message.contains('\u{FFFD}'),
        "unknown level maps to Info; invalid bytes decode lossily"
    );
}

#[test]
fn null_pointers_are_handled() {
    let (rc, _t, _e) = call_process("", b"", 1005);
    assert_eq!(rc, 0, "empty key/value (null-ish) must not crash");
}

#[test]
fn write_c_err_truncates_on_char_boundary() {
    // "é" is two bytes (0xC3 0xA9). A cap of 2 between them must not split it.
    let s = "aébc"; // bytes: a(1) é(2) b(1) c(1) = 5 bytes
    let bytes = write_c_err(slot(2), s).expect("the slot takes text");
    assert_eq!(
        bytes.len(),
        1,
        "truncated back to the char boundary after 'a'"
    );
    assert_eq!(std::str::from_utf8(&bytes).unwrap(), "a");
}

#[test]
fn write_c_err_null_safe() {
    let missing = ErrorSlot {
        buffer_null: true,
        capacity: 16,
        length_null: false,
    };
    assert_eq!(write_c_err(missing, "x"), None);
    let no_length = ErrorSlot {
        buffer_null: false,
        capacity: 16,
        length_null: true,
    };
    assert_eq!(write_c_err(no_length, "x"), None);
    assert_eq!(write_c_err(slot(0), "x"), None);
    assert_eq!(write_c_err(slot(-1), "x"), None);
}

/// The bandwidth packet crosses the boundary as flattened arrays: verify
/// 64-bit counters survive intact, strings decode (lossily where invalid), and
/// empty/null arrays are tolerated.
#[test]
fn bandwidth_packet_round_trip() {
    let broker = BrokerInfoRaw {
        id: b"1",
        host: b"broker-1.cluster.internal",
        port: b"9092",
        rack: &[0x65u8, 0x75, 0xff], // "eu" + invalid byte
    };
    let partition = PartitionBandwidthRaw {
        ts_unix_ns: 1_900_000_000_000_000_001, // > 2^32: pins 64 bits
        received_bytes: 5_000_000_002,
        transmitted_bytes: 6_000_000_003,
        received_message_count: 7_000_000_004,
        // Distinct non-zero sentinels: with both at 0 a swapped pair in
        // the field mapping would be invisible.
        compressed_bytes: 8_000_000_005,
        uncompressed_bytes: 9_000_000_006,
        id: 3,
        leader: b"1",
        compression: &[], // adapter without compression visibility
    };
    let m = decode_bandwidth(
        1_900_000_000_000_000_000,
        60_000,
        b"packet-uuid-1",
        b"orders",
        b"grp",
        &[broker],
        &[partition],
    );
    assert_eq!(m.metrics_id, "packet-uuid-1");
    assert_eq!(m.ts_unix_ns, 1_900_000_000_000_000_000);
    assert_eq!(m.stats_interval_ms, 60_000);
    assert_eq!(m.topic, "orders");
    assert_eq!(m.consumer_group, "grp");
    assert_eq!(m.brokers.len(), 1);
    assert_eq!(m.brokers[0].id, "1");
    assert_eq!(m.brokers[0].host, "broker-1.cluster.internal");
    assert_eq!(m.brokers[0].port, "9092");
    assert!(
        m.brokers[0].rack.starts_with("eu") && m.brokers[0].rack.contains('\u{FFFD}'),
        "invalid rack bytes decode lossily: {:?}",
        m.brokers[0].rack
    );
    let p = &m.partitions[0];
    assert_eq!(p.ts_unix_ns, 1_900_000_000_000_000_001);
    assert_eq!(p.received_bytes, 5_000_000_002, "64-bit counter intact");
    assert_eq!(p.transmitted_bytes, 6_000_000_003);
    assert_eq!(p.received_message_count, 7_000_000_004);
    assert_eq!(p.compressed_bytes, 8_000_000_005);
    assert_eq!(p.uncompressed_bytes, 9_000_000_006);
    assert_eq!(p.id, 3);
    assert_eq!(p.leader, "1");
    assert_eq!(p.compression, "", "null string decodes to empty");
}

/// Empty packet (no brokers, no partitions, null arrays): must not crash.
#[test]
fn bandwidth_tolerates_empty_packet() {
    let m = decode_bandwidth(1, 1000, b"empty-packet", b"", b"", &[], &[]);
    assert_eq!(m.metrics_id, "empty-packet");
    assert!(m.topic.is_empty() && m.brokers.is_empty() && m.partitions.is_empty());
}

// -- headers --------------------------------------------------------------------

/// DUPLICATE keys are legal in Kafka headers and must all be delivered, in
/// wire order, with their own values; nothing may dedupe or reorder them.
#[test]
fn duplicate_header_keys_are_all_delivered_in_order() {
    let headers = [
        header_raw(b"dup", Some(b"first")),
        header_raw(b"other", Some(b"middle")),
        header_raw(b"dup", Some(b"second")),
    ];
    let views = borrow_headers(&headers);

    assert_eq!(views.len(), 3, "no deduplication");
    assert_eq!(views[0].key, "dup");
    assert_eq!(views[0].value, Some(&b"first"[..]));
    assert_eq!(views[1].key, "other");
    assert_eq!(views[2].key, "dup", "second duplicate delivered in order");
    assert_eq!(views[2].value, Some(&b"second"[..]));
}

/// A NULL header value (value_len == -1) decodes to None, distinct from an
/// empty value (value_len == 0) which decodes to Some(empty); the null/empty
/// distinction must hold in both directions.
#[test]
fn null_and_empty_header_values_stay_distinct() {
    let headers = [
        header_raw(b"tombstone", None),
        header_raw(b"empty", Some(b"")),
        header_raw(b"filled", Some(b"v")),
    ];
    let views = borrow_headers(&headers);

    assert_eq!(views[0].value, None, "value_len == -1 is a null value");
    assert_eq!(
        views[1].value,
        Some(&b""[..]),
        "value_len == 0 is an empty value, not null"
    );
    assert_eq!(views[2].value, Some(&b"v"[..]));
}

/// Keys are UTF-8 by the adapter's contract; a header whose key bytes are
/// invalid anyway decodes to "" rather than panicking or fabricating an
/// invalid &str.
#[test]
fn invalid_utf8_header_key_decodes_to_empty() {
    let bad_key: [u8; 3] = [0x64, 0xff, 0xfe]; // "d" + invalid bytes
    let headers = [header_raw(&bad_key, Some(b"v"))];
    let views = borrow_headers(&headers);
    assert_eq!(views[0].key, "");
    assert_eq!(views[0].value, Some(&b"v"[..]));
}

/// A null array pointer or a non-positive count is an empty header list,
/// never a crash.
#[test]
fn null_or_empty_header_arrays_decode_to_no_headers() {
    let headers = [header_raw(b"k", Some(b"v"))];
    for (is_null, count) in [(true, 4), (false, 0), (false, -1)] {
        let n = borrowed_len(is_null, count);
        assert!(borrow_headers(&headers[..n]).is_empty());
    }
    assert_eq!(borrow_headers(&headers[..borrowed_len(false, 1)]).len(), 1);
}

// -- laws on values -------------------------------------------------------------

/// As much of the text as fits, and never a broken character.
#[test]
fn error_text_is_cut_between_characters() {
    let text = "aé\u{1F600}z"; // 1 + 2 + 4 + 1 bytes
    let expected = ["", "a", "a", "aé", "aé", "aé", "aé", "aé\u{1F600}", text, text];
    for (cap, want) in expected.iter().enumerate() {
        let got = write_c_err(slot(cap as i32), text).unwrap_or_default();
        assert_eq!(String::from_utf8(got).expect("whole characters"), *want, "cap {cap}");
    }
}

/// Every outcome of a process callback, with all that is written back.
#[test]
fn process_replies_are_exact() {
    let none = process_reply(ProcessOutcome::NoHandlers, false, slot(16));
    assert_eq!(none.code, -1);
    assert_eq!((none.traits, none.error, none.error_len), (None, None, Some(0)));

    let bits = ProcessOutcome::Processed { traits: u64::MAX };
    let done = process_reply(bits, false, slot(16));
    assert_eq!(done.code, 0);
    assert_eq!(
        (done.traits, done.error, done.error_len),
        (Some(-1024), None, Some(0)),
        "the ten framework bits are cleared"
    );

    let unwritten = process_reply(ProcessOutcome::Processed { traits: 1 << 40 }, true, slot(16));
    assert_eq!(unwritten.traits, None);

    let failed = ProcessOutcome::Failed {
        text: "broken".to_string(),
    };
    let reply = process_reply(failed, false, slot(3));
    assert_eq!(reply.code, 1);
    assert_eq!(
        (reply.traits, reply.error, reply.error_len),
        (None, Some(b"bro".to_vec()), Some(3))
    );

    let nowhere = ErrorSlot {
        buffer_null: true,
        capacity: 0,
        length_null: true,
    };
    let silent = process_reply(ProcessOutcome::Panicked, false, nowhere);
    assert_eq!(silent.code, 1);
    assert_eq!((silent.traits, silent.error, silent.error_len), (None, None, None));
}

#[test]
fn unknown_timestamp_kinds_are_not_available() {
    for kind in [-128i8, -1, 0, 3, 127] {
        assert_eq!(decode_timestamp(kind, 9), Timestamp::NotAvailable);
    }
    assert_eq!(decode_timestamp(1, -9), Timestamp::CreateTime { millis: -9 });
}

/// Valid bytes decode to the same text, and all four levels are kept.
#[test]
fn log_levels_are_kept() {
    for (raw, level) in [
        (0, LogLevel::Debug),
        (1, LogLevel::Info),
        (2, LogLevel::Warn),
        (3, LogLevel::Error),
        (-1, LogLevel::Info),
    ] {
        let record = log_record(raw, "größe".as_bytes());
        assert_eq!(record.level, level);
        assert_eq!(record.message, "größe");
    }
}
