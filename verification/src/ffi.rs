//! The shape of what the engine hands over at a callback: byte strings as
//! slices that are valid for the call, with the lengths that mark absent
//! values.

use vstd::prelude::*;

verus! {

/// The version of the callback contract that this crate was written for.
pub const LLINGR_ABI_VERSION: i32 = 1;

/// One record header. A negative `value_len` marks a null value, which is
/// distinct from an empty one.
pub struct HeaderRaw<'a> {
    /// Header key; UTF-8 by convention.
    pub key: &'a [u8],
    /// Header value.
    pub value: &'a [u8],
    /// The length that the engine gave for the value.
    pub value_len: i32,
}

/// One broker in a bandwidth packet.
pub struct BrokerInfoRaw<'a> {
    /// Broker node ID.
    pub id: &'a [u8],
    /// Broker host.
    pub host: &'a [u8],
    /// Broker port.
    pub port: &'a [u8],
    /// Availability zone or rack.
    pub rack: &'a [u8],
}

/// One partition's counters in a bandwidth packet.
pub struct PartitionBandwidthRaw<'a> {
    /// Measurement time, Unix epoch nanoseconds.
    pub ts_unix_ns: i64,
    /// Bytes received.
    pub received_bytes: i64,
    /// Bytes transmitted.
    pub transmitted_bytes: i64,
    /// Messages received.
    pub received_message_count: i64,
    /// Wire bytes; zero if unavailable.
    pub compressed_bytes: i64,
    /// Decompressed bytes; zero if unavailable.
    pub uncompressed_bytes: i64,
    /// Partition number.
    pub id: i32,
    /// Broker serving the partition.
    pub leader: &'a [u8],
    /// Compression algorithm; empty if unavailable.
    pub compression: &'a [u8],
}

} // verus!
