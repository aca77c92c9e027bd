//! Typed view of the engine's snapshot document: topic summary, sliding
//! throughput windows, per-partition offset tracking, guard-channel
//! utilisation and per-shard worker counts.
//!
//! Timestamps are UTC texts with millisecond precision
//! (`2026-07-16T14:30:05.123Z`); durations are texts such as `1.517ms` or
//! `2m30s`, kept as they are.

use vstd::prelude::*;

verus! {

/// A point-in-time view of the engine's state.
#[derive(Debug, Clone, PartialEq)]
pub struct Snapshot {
    /// Topic, assignment, lifetime throughput.
    pub summary: Summary,
    /// Sliding-window throughput and latency state.
    pub throughput: Throughput,
    /// Per-partition offset tracking state.
    pub pre_commits: PreCommits,
    /// Guard-channel and commit-ingest utilisation.
    pub concurrency: Concurrency,
    /// Worker population per shard.
    pub shards: Vec<Shard>,
}

/// Top-level engine summary.
#[derive(Debug, Clone, PartialEq)]
pub struct Summary {
    /// The consumed topic.
    pub topic_name: String,
    /// Number of partitions assigned to this consumer.
    pub assigned_partition_count: i64,
    /// Messages processed since the engine started.
    pub total_processed: i64,
    /// When the last rebalance completed.
    pub last_rebalance_time: String,
}

/// Sliding-window throughput and latency state.
#[derive(Debug, Clone, PartialEq)]
pub struct Throughput {
    /// Per-bucket message counts, oldest first.
    pub windows: Vec<ThroughputWindow>,
    /// Messages processed since the engine started.
    pub total_processed: i64,
    /// Messages dead-lettered since the engine started.
    pub total_dead_lettered: i64,
    /// Mean processing time over the window.
    pub avg_process_duration: String,
    /// Maximum processing time over the window.
    pub max_process_duration: String,
    /// Mean time from read to watermark advance over the window.
    pub avg_end_to_end_duration: String,
    /// Maximum time from read to watermark advance over the window.
    pub max_end_to_end_duration: String,
    /// Minimum time from read to watermark advance over the window.
    pub min_end_to_end_duration: String,
}

/// Message counts for one time bucket.
#[derive(Debug, Clone, PartialEq)]
pub struct ThroughputWindow {
    /// Bucket start.
    pub from_time: String,
    /// Bucket end.
    pub to_time: String,
    /// Messages processed in this bucket.
    pub processed_count: u32,
    /// Messages dead-lettered in this bucket.
    pub dead_letter_count: u32,
}

/// Per-partition offset tracking state.
#[derive(Debug, Clone, PartialEq)]
pub struct PreCommits {
    /// One entry per partition the committer tracks.
    pub partitions: Vec<PartitionOffsets>,
}

/// Offset tracking state for one partition; `-1` marks a position that is not
/// recorded yet.
#[derive(Debug, Clone, PartialEq)]
pub struct PartitionOffsets {
    /// The partition number.
    pub partition: i32,
    /// Highest offset committed to the broker.
    pub committed_offset: i64,
    /// Highest contiguously completed offset, ready to commit.
    pub highest_ready_offset: i64,
    /// Highest offset observed on the partition.
    pub max_offset_seen: i64,
    /// Completions waiting in the gap buffer for the ones before them.
    pub gap_buffer_depth: i64,
    /// Whether the partition is assigned to this consumer.
    pub assigned: bool,
}

/// Guard-channel and commit-ingest utilisation.
#[derive(Debug, Clone, PartialEq)]
pub struct Concurrency {
    /// Guard tokens held.
    pub guard_active: i64,
    /// Guard channel capacity.
    pub guard_capacity: i64,
    /// Overflow tokens held.
    pub overflow_active: i64,
    /// Overflow channel capacity.
    pub overflow_capacity: i64,
    /// Commit-ingest channel occupancy.
    pub commit_ingest_active: i64,
    /// Commit-ingest channel capacity.
    pub commit_ingest_capacity: i64,
}

/// Worker population for one shard.
#[derive(Debug, Clone, PartialEq)]
pub struct Shard {
    /// The shard index.
    pub shard: i64,
    /// Workers bound to keys on this shard.
    pub active_workers: i64,
    /// Idle workers parked in the pool.
    pub pooled_workers: i64,
}

} // verus!
