//! What happens at the engine's callbacks: decoding what the engine hands
//! over, and turning a handler's outcome into the reply that the engine gets.

use crate::ffi::{BrokerInfoRaw, HeaderRaw, PartitionBandwidthRaw};
use crate::foreign;
use crate::foreign::{application_traits, lossy_text};
use crate::metrics::{BandwidthMetrics, BrokerInfo, MessageMetrics, PartitionBandwidth};
use vstd::prelude::*;
use vstd::string::*;
use vstd::utf8::*;

verus! {

// ---------------------------------------------------------------------------
// Lengths
// ---------------------------------------------------------------------------

/// How many elements of an array that the engine gave as a pointer and a
/// length may be read: none behind a null pointer or for a length that is not
/// positive.
pub fn borrowed_len(is_null: bool, len: i32) -> (n: usize)
    ensures
        n == if is_null || len <= 0 {
            0int
        } else {
            len as int
        },
{
    if is_null || len <= 0 {
        0
    } else {
        len as usize
    }
}

// ---------------------------------------------------------------------------
// Records
// ---------------------------------------------------------------------------

/// A record's timestamp and how it was set, in milliseconds since the Unix
/// epoch.
#[derive(Debug, Clone, Copy, PartialEq, Eq)]
pub enum Timestamp {
    /// The record carried no usable timestamp.
    NotAvailable,
    /// Producer-assigned event time.
    CreateTime {
        /// Milliseconds since the Unix epoch.
        millis: i64,
    },
    /// Broker-assigned ingestion time.
    LogAppendTime {
        /// Milliseconds since the Unix epoch.
        millis: i64,
    },
}

/// A record header: its key, and its value unless that is null.
#[derive(Debug, Clone, Copy)]
pub struct Header<'a> {
    /// Header key.
    pub key: &'a str,
    /// Header value, or `None` for a null value.
    pub value: Option<&'a [u8]>,
}

/// A record as it is delivered to a handler.
pub struct Message<'a> {
    /// Partition key bytes.
    pub key: Option<&'a [u8]>,
    /// Record value, or `None` for a null value.
    pub value: Option<&'a [u8]>,
    /// The topic the record came from.
    pub topic: &'a str,
    /// Partition number.
    pub partition: i32,
    /// Offset within the partition.
    pub offset: i64,
    /// Record timestamp and its kind.
    pub timestamp: Timestamp,
    /// The record's headers, in wire order.
    pub headers: Vec<Header<'a>>,
}

/// The timestamp that a kind number and a millisecond value stand for.
pub open spec fn timestamp_of(kind: i8, millis: i64) -> Timestamp {
    if kind == 1 {
        Timestamp::CreateTime { millis }
    } else if kind == 2 {
        Timestamp::LogAppendTime { millis }
    } else {
        Timestamp::NotAvailable
    }
}

/// Decode a timestamp kind and its milliseconds.
pub fn decode_timestamp(kind: i8, millis: i64) -> (r: Timestamp)
    ensures
        r == timestamp_of(kind, millis),
{
    match kind {
        1 => Timestamp::CreateTime { millis },
        2 => Timestamp::LogAppendTime { millis },
        _ => Timestamp::NotAvailable,
    }
}

/// The text of a header key: empty when its bytes are not valid UTF-8.
pub open spec fn key_text(bytes: Seq<u8>) -> Seq<char> {
    if valid_utf8(bytes) {
        decode_utf8(bytes)
    } else {
        seq![]
    }
}

/// `view` is the record or header value that `bytes` with this length stand
/// for: null for a negative length, the bytes otherwise.
pub open spec fn value_is(view: Option<&[u8]>, bytes: &[u8], len: i32) -> bool {
    match view {
        None => len < 0,
        Some(v) => len >= 0 && v@ == bytes@,
    }
}

/// `view` is what the raw header stands for.
pub open spec fn header_is(view: Header<'_>, raw: HeaderRaw<'_>) -> bool {
    &&& view.key@ == key_text(raw.key@)
    &&& value_is(view.value, raw.value, raw.value_len)
}

fn decode_value<'a>(bytes: &'a [u8], len: i32) -> (r: Option<&'a [u8]>)
    ensures
        value_is(r, bytes, len),
{
    if len < 0 {
        None
    } else {
        Some(bytes)
    }
}

fn decode_key<'a>(bytes: &'a [u8]) -> (r: &'a str)
    ensures
        r@ == key_text(bytes@),
{
    match core::str::from_utf8(bytes) {
        Ok(s) => {
            proof {
                encode_utf8_decode_utf8(s@);
            }
            s
        },
        Err(_) => {
            proof {
                reveal_strlit("");
                assert(""@ =~= seq![]);
            }
            ""
        },
    }
}

/// Decode the headers: all of them, repeated keys included, in wire order.
pub fn borrow_headers<'a>(headers: &'a [HeaderRaw<'a>]) -> (r: Vec<Header<'a>>)
    ensures
        r.len() == headers@.len(),
        forall|i: int| 0 <= i < r.len() ==> header_is(#[trigger] r[i], headers@[i]),
{
    let mut r: Vec<Header<'a>> = Vec::new();
    let mut i: usize = 0;
    while i < headers.len()
        invariant
            i <= headers@.len(),
            r.len() == i,
            forall|j: int| 0 <= j < i ==> header_is(#[trigger] r[j], headers@[j]),
        decreases headers@.len() - i,
    {
        let raw = &headers[i];
        r.push(Header { key: decode_key(raw.key), value: decode_value(raw.value, raw.value_len) });
        i = i + 1;
    }
    r
}

/// Decode a record. The key is always present; a negative value length marks a
/// null value.
pub fn decode_message<'a>(
    key: &'a [u8],
    value: &'a [u8],
    value_len: i32,
    topic: &'a str,
    partition: i32,
    offset: i64,
    ts_kind: i8,
    ts_millis: i64,
    headers: &'a [HeaderRaw<'a>],
) -> (r: Message<'a>)
    ensures
        r.key matches Some(k) && k@ == key@,
        value_is(r.value, value, value_len),
        r.topic@ == topic@,
        r.partition == partition,
        r.offset == offset,
        r.timestamp == timestamp_of(ts_kind, ts_millis),
        r.headers.len() == headers@.len(),
        forall|i: int| 0 <= i < r.headers.len() ==> header_is(#[trigger] r.headers[i], headers@[i]),
{
    Message {
        key: Some(key),
        value: decode_value(value, value_len),
        topic,
        partition,
        offset,
        timestamp: decode_timestamp(ts_kind, ts_millis),
        headers: borrow_headers(headers),
    }
}

// ---------------------------------------------------------------------------
// Error text
// ---------------------------------------------------------------------------

/// The last character boundary at or before `n`.
pub open spec fn boundary_at_most(bytes: Seq<u8>, n: int) -> int
    decreases n,
{
    if n <= 0 {
        0
    } else if is_char_boundary(bytes, n) {
        n
    } else {
        boundary_at_most(bytes, n - 1)
    }
}

/// As much of a text as fits into `cap` bytes, cut between characters.
pub open spec fn cut(text: Seq<char>, cap: int) -> Seq<u8> {
    let bytes = encode_utf8(text);
    let most = if bytes.len() <= cap {
        bytes.len() as int
    } else {
        cap
    };
    bytes.subrange(0, boundary_at_most(bytes, most))
}

/// Where the engine takes a callback's error text: its buffer, the buffer's
/// capacity, and the place for the length.
#[derive(Debug, Clone, Copy)]
pub struct ErrorSlot {
    /// Whether the buffer is missing.
    pub buffer_null: bool,
    /// How many bytes the buffer takes.
    pub capacity: i32,
    /// Whether the place for the length is missing.
    pub length_null: bool,
}

impl ErrorSlot {
    /// Whether error text can be written.
    pub open spec fn takes_text(self) -> bool {
        !self.buffer_null && !self.length_null && self.capacity > 0
    }
}

/// The bytes of an error text that are written into the slot, or nothing when
/// the slot takes none.
pub fn write_c_err(slot: ErrorSlot, text: &str) -> (r: Option<Vec<u8>>)
    ensures
        match r {
            None => !slot.takes_text(),
            Some(bytes) => slot.takes_text() && bytes@ == cut(text@, slot.capacity as int),
        },
{
    if slot.buffer_null || slot.length_null || slot.capacity <= 0 {
        return None;
    }
    let bytes = text.as_bytes();
    let cap: usize = slot.capacity as usize;
    let most: usize = if bytes.len() <= cap {
        bytes.len()
    } else {
        cap
    };
    let mut n: usize = most;
    while n > 0 && !text.is_char_boundary(n)
        invariant
            n <= most <= bytes@.len(),
            bytes@ == encode_utf8(text@),
            boundary_at_most(bytes@, most as int) == boundary_at_most(bytes@, n as int),
        decreases n,
    {
        n = n - 1;
    }
    let mut r: Vec<u8> = Vec::new();
    let mut i: usize = 0;
    while i < n
        invariant
            i <= n <= bytes@.len(),
            r@ == bytes@.subrange(0, i as int),
        decreases n - i,
    {
        r.push(bytes[i]);
        assert(r@ =~= bytes@.subrange(0, i + 1));
        i = i + 1;
    }
    Some(r)
}

// ---------------------------------------------------------------------------
// Replies
// ---------------------------------------------------------------------------

/// What came of a process callback.
pub enum ProcessOutcome {
    /// No handler set is published.
    NoHandlers,
    /// The handler returned these trait bits.
    Processed {
        /// Trait bits, framework bits included.
        traits: u64,
    },
    /// The handler returned an error.
    Failed {
        /// The error's text.
        text: String,
    },
    /// The handler panicked.
    Panicked,
}

/// The reply to a process callback: the return code, and what is written back.
pub struct ProcessReply {
    /// Return code: 0 processed, 1 to the dead-letter handler, -1 no handlers.
    pub code: i32,
    /// The trait bits to write, unless none are written.
    pub traits: Option<i64>,
    /// The error text to write, unless none is written.
    pub error: Option<Vec<u8>>,
    /// The error length to write, unless none is written.
    pub error_len: Option<i32>,
}

/// The text that a panicking process handler is reported with.
pub open spec fn panic_text() -> Seq<char> {
    "panic in process callback"@
}

impl ProcessOutcome {
    /// The return code.
    pub open spec fn code(self) -> i32 {
        match self {
            ProcessOutcome::NoHandlers => -1i32,
            ProcessOutcome::Processed { .. } => 0i32,
            ProcessOutcome::Failed { .. } => 1i32,
            ProcessOutcome::Panicked => 1i32,
        }
    }

    /// The error text that is reported, if any.
    pub open spec fn error_text(self) -> Option<Seq<char>> {
        match self {
            ProcessOutcome::Failed { text } => Some(text@),
            ProcessOutcome::Panicked => Some(panic_text()),
            _ => None,
        }
    }
}

/// The reply to a process callback. Application trait bits go back only when
/// the message was processed; the error text of a failed or panicked handler
/// goes back as far as it fits, cut between characters.
pub fn process_reply(outcome: ProcessOutcome, traits_null: bool, slot: ErrorSlot) -> (r: ProcessReply)
    ensures
        r.code == outcome.code(),
        r.traits == match outcome {
            ProcessOutcome::Processed { traits } if !traits_null => Some(
                (traits & !0x3ffu64) as i64,
            ),
            _ => None,
        },
        match (r.error, outcome.error_text()) {
            (Some(bytes), Some(text)) => slot.takes_text() && bytes@ == cut(
                text,
                slot.capacity as int,
            ),
            (Some(_), None) => false,
            (None, text) => text is None || !slot.takes_text(),
        },
        match r.error_len {
            None => slot.length_null,
            Some(n) => !slot.length_null && n == match r.error {
                Some(bytes) => bytes@.len(),
                None => 0,
            },
        },
{
    let mut code: i32 = 0;
    let mut traits: Option<i64> = None;
    let mut error: Option<Vec<u8>> = None;
    match outcome {
        ProcessOutcome::NoHandlers => {
            code = -1;
        },
        ProcessOutcome::Processed { traits: bits } => {
            if !traits_null {
                traits = Some(application_traits(bits) as i64);
            }
        },
        ProcessOutcome::Failed { text } => {
            code = 1;
            error = write_c_err(slot, text.as_str());
        },
        ProcessOutcome::Panicked => {
            code = 1;
            error = write_c_err(slot, "panic in process callback");
        },
    }
    let error_len: Option<i32> = if slot.length_null {
        None
    } else {
        match &error {
            None => Some(0),
            Some(bytes) => {
                proof {
                    let text = outcome.error_text()->0;
                    cut_fits(text, slot.capacity as int);
                }
                Some(bytes.len() as i32)
            },
        }
    };
    ProcessReply { code, traits, error, error_len }
}

/// What came of a dead-letter callback.
pub enum DeadLetterOutcome {
    /// No handler set is published.
    NoHandlers,
    /// The handler set has no dead-letter handler.
    NoDeadLetterHandler,
    /// The handler recorded the message.
    Recorded,
    /// The handler returned an error.
    Failed,
    /// The handler panicked.
    Panicked,
}

/// The reply to a dead-letter callback: 0 recorded, 1 failed, -1 no handlers.
/// A panic is answered like an error.
pub fn deadletter_reply(outcome: DeadLetterOutcome) -> (code: i32)
    ensures
        code == match outcome {
            DeadLetterOutcome::NoHandlers => -1i32,
            DeadLetterOutcome::NoDeadLetterHandler => 0i32,
            DeadLetterOutcome::Recorded => 0i32,
            DeadLetterOutcome::Failed => 1i32,
            DeadLetterOutcome::Panicked => 1i32,
        },
{
    match outcome {
        DeadLetterOutcome::NoHandlers => -1,
        DeadLetterOutcome::NoDeadLetterHandler => 0,
        DeadLetterOutcome::Recorded => 0,
        DeadLetterOutcome::Failed => 1,
        DeadLetterOutcome::Panicked => 1,
    }
}

/// The error text that a dead-letter handler is given, decoded lossily.
pub fn deadletter_error(error: &[u8]) -> (r: String)
    ensures
        foreign::reads_as(error@, r@),
{
    lossy_text(error)
}

/// The reason that a shutdown handler is given: `unknown` when the engine gave
/// none, decoded lossily otherwise.
pub fn shutdown_reason(reason: &[u8]) -> (r: String)
    ensures
        if reason@.len() == 0 {
            r@ == "unknown"@
        } else {
            foreign::reads_as(reason@, r@)
        },
{
    if reason.len() == 0 {
        "unknown".to_owned()
    } else {
        lossy_text(reason)
    }
}

// ---------------------------------------------------------------------------
// Telemetry packets
// ---------------------------------------------------------------------------

/// Assemble a message's metrics packet from the values of the callback.
pub fn decode_metrics(
    traits: i64,
    queue_depth: i32,
    partition: i32,
    offset: i64,
    process_duration_ns: i64,
    deadletter_duration_ns: i64,
    read_time_ns: i64,
    process_start_time_ns: i64,
    watermark_advance_time_ns: i64,
) -> (r: MessageMetrics)
    ensures
        r == (MessageMetrics {
            traits: traits as u64,
            queue_depth,
            partition,
            offset,
            process_duration_ns,
            deadletter_duration_ns,
            read_time_ns,
            process_start_time_ns,
            watermark_advance_time_ns,
        }),
{
    MessageMetrics {
        traits: traits as u64,
        queue_depth,
        partition,
        offset,
        process_duration_ns,
        deadletter_duration_ns,
        read_time_ns,
        process_start_time_ns,
        watermark_advance_time_ns,
    }
}

/// `info` is what the raw broker stands for.
pub open spec fn broker_is(info: BrokerInfo, raw: BrokerInfoRaw<'_>) -> bool {
    &&& foreign::reads_as(raw.id@, info.id@)
    &&& foreign::reads_as(raw.host@, info.host@)
    &&& foreign::reads_as(raw.port@, info.port@)
    &&& foreign::reads_as(raw.rack@, info.rack@)
}

/// `p` is what the raw partition stands for.
pub open spec fn partition_is(p: PartitionBandwidth, raw: PartitionBandwidthRaw<'_>) -> bool {
    &&& p.ts_unix_ns == raw.ts_unix_ns
    &&& p.received_bytes == raw.received_bytes
    &&& p.transmitted_bytes == raw.transmitted_bytes
    &&& p.received_message_count == raw.received_message_count
    &&& p.compressed_bytes == raw.compressed_bytes
    &&& p.uncompressed_bytes == raw.uncompressed_bytes
    &&& p.id == raw.id
    &&& foreign::reads_as(raw.leader@, p.leader@)
    &&& foreign::reads_as(raw.compression@, p.compression@)
}

fn decode_brokers(brokers: &[BrokerInfoRaw<'_>]) -> (r: Vec<BrokerInfo>)
    ensures
        r.len() == brokers@.len(),
        forall|i: int| 0 <= i < r.len() ==> broker_is(#[trigger] r[i], brokers@[i]),
{
    let mut r: Vec<BrokerInfo> = Vec::new();
    let mut i: usize = 0;
    while i < brokers.len()
        invariant
            i <= brokers@.len(),
            r.len() == i,
            forall|j: int| 0 <= j < i ==> broker_is(#[trigger] r[j], brokers@[j]),
        decreases brokers@.len() - i,
    {
        let raw = &brokers[i];
        r.push(
            BrokerInfo {
                id: lossy_text(raw.id),
                host: lossy_text(raw.host),
                port: lossy_text(raw.port),
                rack: lossy_text(raw.rack),
            },
        );
        i = i + 1;
    }
    r
}

fn decode_partitions(partitions: &[PartitionBandwidthRaw<'_>]) -> (r: Vec<PartitionBandwidth>)
    ensures
        r.len() == partitions@.len(),
        forall|i: int| 0 <= i < r.len() ==> partition_is(#[trigger] r[i], partitions@[i]),
{
    let mut r: Vec<PartitionBandwidth> = Vec::new();
    let mut i: usize = 0;
    while i < partitions.len()
        invariant
            i <= partitions@.len(),
            r.len() == i,
            forall|j: int| 0 <= j < i ==> partition_is(#[trigger] r[j], partitions@[j]),
        decreases partitions@.len() - i,
    {
        let raw = &partitions[i];
        r.push(
            PartitionBandwidth {
                ts_unix_ns: raw.ts_unix_ns,
                received_bytes: raw.received_bytes,
                transmitted_bytes: raw.transmitted_bytes,
                received_message_count: raw.received_message_count,
                compressed_bytes: raw.compressed_bytes,
                uncompressed_bytes: raw.uncompressed_bytes,
                id: raw.id,
                leader: lossy_text(raw.leader),
                compression: lossy_text(raw.compression),
            },
        );
        i = i + 1;
    }
    r
}

/// Decode a bandwidth packet; its texts are decoded lossily.
pub fn decode_bandwidth(
    ts_unix_ns: i64,
    stats_interval_ms: i64,
    metrics_id: &[u8],
    topic: &[u8],
    group: &[u8],
    brokers: &[BrokerInfoRaw<'_>],
    partitions: &[PartitionBandwidthRaw<'_>],
) -> (r: BandwidthMetrics)
    ensures
        r.ts_unix_ns == ts_unix_ns,
        r.stats_interval_ms == stats_interval_ms,
        foreign::reads_as(metrics_id@, r.metrics_id@),
        foreign::reads_as(topic@, r.topic@),
        foreign::reads_as(group@, r.consumer_group@),
        r.brokers.len() == brokers@.len(),
        forall|i: int| 0 <= i < r.brokers.len() ==> broker_is(#[trigger] r.brokers[i], brokers@[i]),
        r.partitions.len() == partitions@.len(),
        forall|i: int|
            0 <= i < r.partitions.len() ==> partition_is(#[trigger] r.partitions[i], partitions@[i]),
{
    BandwidthMetrics {
        ts_unix_ns,
        stats_interval_ms,
        metrics_id: lossy_text(metrics_id),
        topic: lossy_text(topic),
        consumer_group: lossy_text(group),
        brokers: decode_brokers(brokers),
        partitions: decode_partitions(partitions),
    }
}

// ---------------------------------------------------------------------------
// Laws
// ---------------------------------------------------------------------------

proof fn boundary_at_most_bounds(bytes: Seq<u8>, n: int)
    requires
        valid_utf8(bytes),
        0 <= n <= bytes.len(),
    ensures
        0 <= boundary_at_most(bytes, n) <= n,
        is_char_boundary(bytes, boundary_at_most(bytes, n)),
        forall|m: int| boundary_at_most(bytes, n) < m <= n ==> !is_char_boundary(bytes, m),
    decreases n,
{
    if n > 0 && !is_char_boundary(bytes, n) {
        boundary_at_most_bounds(bytes, n - 1);
    }
}

/// Cut error text fits the buffer.
pub proof fn cut_fits(text: Seq<char>, cap: int)
    requires
        cap >= 0,
    ensures
        cut(text, cap).len() <= cap,
{
    let bytes = encode_utf8(text);
    encode_utf8_valid_utf8(text);
    let most = if bytes.len() <= cap {
        bytes.len() as int
    } else {
        cap
    };
    boundary_at_most_bounds(bytes, most);
}

/// Cut error text is whole characters: it is valid UTF-8, it is the beginning
/// of the text, the text is cut only when it does not fit, and no more whole
/// characters would fit.
pub proof fn cut_is_the_longest_fitting_text(text: Seq<char>, cap: int)
    requires
        cap >= 0,
    ensures
        ({
            let bytes = encode_utf8(text);
            let kept = cut(text, cap);
            &&& valid_utf8(kept)
            &&& decode_utf8(kept).is_prefix_of(text)
            &&& bytes.len() <= cap ==> kept == bytes
            &&& forall|m: int|
                kept.len() < m <= cap && m <= bytes.len() ==> !is_char_boundary(bytes, m)
        }),
{
    let bytes = encode_utf8(text);
    let kept = cut(text, cap);
    encode_utf8_valid_utf8(text);
    encode_utf8_decode_utf8(text);
    let most = if bytes.len() <= cap {
        bytes.len() as int
    } else {
        cap
    };
    let n = boundary_at_most(bytes, most);
    boundary_at_most_bounds(bytes, most);
    valid_utf8_split(bytes, n);
    decode_utf8_split(bytes, n);
    assert(decode_utf8(kept).is_prefix_of(text)) by {
        let rest = decode_utf8(bytes.subrange(n, bytes.len() as int));
        assert(text =~= decode_utf8(kept) + rest);
        assert(text.subrange(0, decode_utf8(kept).len() as int) =~= decode_utf8(kept));
    }
    if bytes.len() <= cap {
        is_char_boundary_start_end_of_seq(bytes);
        if bytes.len() > 0 {
            assert(n == bytes.len());
        }
        assert(kept =~= bytes);
    }
}

/// Framework bits never travel back: the trait bits that are written after a
/// processed message have the ten framework bits cleared and all others kept.
pub proof fn written_traits_are_application_bits(traits: u64)
    ensures
        (traits & !0x3ffu64) & 0x3ffu64 == 0,
        (traits & !0x3ffu64) | (traits & 0x3ffu64) == traits,
{
    assert((traits & !0x3ffu64) & 0x3ffu64 == 0) by (bit_vector);
    assert((traits & !0x3ffu64) | (traits & 0x3ffu64) == traits) by (bit_vector);
}

/// A panic is answered as an error that the handler returned would be, with a
/// text of its own.
pub proof fn panic_is_answered_like_an_error(text: String)
    ensures
        ProcessOutcome::Panicked.code() == (ProcessOutcome::Failed { text }).code(),
        ProcessOutcome::Panicked.error_text() == Some("panic in process callback"@),
{
}

/// A record carries exactly the time that the engine gave it, as the time of
/// its creation for kind 1 and of its ingestion for kind 2; for any other kind
/// it carries none.
pub proof fn records_carry_the_time_they_were_given(kind: i8, millis: i64)
    ensures
        kind == 1 ==> timestamp_of(kind, millis) == (Timestamp::CreateTime { millis }),
        kind == 2 ==> timestamp_of(kind, millis) == (Timestamp::LogAppendTime { millis }),
        kind != 1 && kind != 2 ==> timestamp_of(kind, millis) == Timestamp::NotAvailable,
{
}

/// A value is null exactly for a negative length; otherwise it is all the
/// bytes, be they none.
pub proof fn null_values_are_told_from_empty_ones(view: Option<&[u8]>, bytes: &[u8], len: i32)
    ensures
        value_is(view, bytes, len) <==> if len < 0 {
            view is None
        } else {
            view matches Some(v) && v@ == bytes@
        },
{
}

/// A header has the key whose bytes the engine gave, or an empty one where
/// those are no text, and its value whatever the key is.
pub proof fn headers_keep_key_and_value(view: Header<'_>, raw: HeaderRaw<'_>)
    requires
        header_is(view, raw),
    ensures
        valid_utf8(raw.key@) ==> encode_utf8(view.key@) == raw.key@,
        !valid_utf8(raw.key@) ==> view.key@.len() == 0,
        raw.value_len < 0 ==> view.value is None,
        raw.value_len >= 0 ==> (view.value matches Some(v) && v@ == raw.value@),
{
    if valid_utf8(raw.key@) {
        decode_utf8_encode_utf8(raw.key@);
    }
}

/// A text that the engine gave as bytes has exactly these bytes, where they are
/// valid UTF-8.
pub proof fn decoded_text_has_the_given_bytes(bytes: Seq<u8>, text: Seq<char>)
    requires
        foreign::reads_as(bytes, text),
    ensures
        valid_utf8(bytes) ==> encode_utf8(text) == bytes,
        text == foreign::lossy_utf8(bytes),
{
    if valid_utf8(bytes) {
        decode_utf8_encode_utf8(bytes);
    }
}

/// A broker keeps its four texts, each in its place.
pub proof fn brokers_keep_their_texts(info: BrokerInfo, raw: BrokerInfoRaw<'_>)
    requires
        broker_is(info, raw),
    ensures
        info.id@ == foreign::lossy_utf8(raw.id@),
        info.host@ == foreign::lossy_utf8(raw.host@),
        info.port@ == foreign::lossy_utf8(raw.port@),
        info.rack@ == foreign::lossy_utf8(raw.rack@),
        valid_utf8(raw.id@) ==> encode_utf8(info.id@) == raw.id@,
        valid_utf8(raw.host@) ==> encode_utf8(info.host@) == raw.host@,
        valid_utf8(raw.port@) ==> encode_utf8(info.port@) == raw.port@,
        valid_utf8(raw.rack@) ==> encode_utf8(info.rack@) == raw.rack@,
{
    decoded_text_has_the_given_bytes(raw.id@, info.id@);
    decoded_text_has_the_given_bytes(raw.host@, info.host@);
    decoded_text_has_the_given_bytes(raw.port@, info.port@);
    decoded_text_has_the_given_bytes(raw.rack@, info.rack@);
}

/// A partition keeps its number, its time, its five counters and its two texts,
/// each in its place.
pub proof fn partitions_keep_their_counters(p: PartitionBandwidth, raw: PartitionBandwidthRaw<'_>)
    requires
        partition_is(p, raw),
    ensures
        p.id == raw.id,
        p.ts_unix_ns == raw.ts_unix_ns,
        p.received_bytes == raw.received_bytes,
        p.transmitted_bytes == raw.transmitted_bytes,
        p.received_message_count == raw.received_message_count,
        p.compressed_bytes == raw.compressed_bytes,
        p.uncompressed_bytes == raw.uncompressed_bytes,
        p.leader@ == foreign::lossy_utf8(raw.leader@),
        p.compression@ == foreign::lossy_utf8(raw.compression@),
        valid_utf8(raw.leader@) ==> encode_utf8(p.leader@) == raw.leader@,
        valid_utf8(raw.compression@) ==> encode_utf8(p.compression@) == raw.compression@,
{
    decoded_text_has_the_given_bytes(raw.leader@, p.leader@);
    decoded_text_has_the_given_bytes(raw.compression@, p.compression@);
}

/// Error text is taken exactly where there is a buffer, a place for the length,
/// and room for at least one byte.
pub proof fn error_text_needs_room(slot: ErrorSlot)
    ensures
        slot.takes_text() <==> !slot.buffer_null && !slot.length_null && slot.capacity >= 1,
{
}

/// Only a processed message is answered with 0, only a missing handler set with
/// -1; a handler's error is answered with 1 and with its own text, whatever
/// that is, and nothing else has a text but a panic.
pub proof fn outcomes_are_told_apart(traits: u64, text: String)
    ensures
        (ProcessOutcome::Processed { traits }).code() == 0,
        (ProcessOutcome::Processed { traits }).error_text() is None,
        (ProcessOutcome::Failed { text }).code() == 1,
        (ProcessOutcome::Failed { text }).error_text() == Some(text@),
        ProcessOutcome::Panicked.code() == 1,
        ProcessOutcome::Panicked.error_text() == Some("panic in process callback"@),
        ProcessOutcome::NoHandlers.code() == -1,
        ProcessOutcome::NoHandlers.error_text() is None,
{
}

} // verus!
