//! What a run of packets leaves in the series: the totals of the counters, and
//! the values that the gauges hold.

use crate::metrics;
use crate::metrics::{
    BandwidthMetrics, BandwidthSink, BrokerInfo, MessageMetrics, MessageSink, PartitionBandwidth,
    Series, UpdateModel,
};
use crate::pairs::Pair;
use crate::text;
use vstd::prelude::*;

verus! {

// ---------------------------------------------------------------------------
// Single series
// ---------------------------------------------------------------------------

/// The update sets the gauge under these labels.
pub open spec fn sets(u: UpdateModel, series: Series, labels: Seq<Pair>) -> bool {
    u matches UpdateModel::Gauge { series: s, labels: l, .. } && s == series && l == labels
}

/// The update makes the counter under these labels grow.
pub open spec fn grows(u: UpdateModel, series: Series, labels: Seq<Pair>) -> bool {
    u matches UpdateModel::Increase { series: s, labels: l, .. } && s == series && l == labels
}

/// The value that a gauge holds after the updates: that of the last one that
/// sets it, and none when it was never set.
pub open spec fn held(updates: Seq<UpdateModel>, series: Series, labels: Seq<Pair>) -> Option<i64>
    decreases updates.len(),
{
    if updates.len() == 0 {
        None
    } else {
        match updates.last() {
            UpdateModel::Gauge { series: s, labels: l, value } if s == series && l == labels => {
                Some(value)
            },
            _ => held(updates.drop_last(), series, labels),
        }
    }
}

/// The counter has a series under these labels: some update makes it grow.
pub open spec fn is_counted(
    updates: Seq<UpdateModel>,
    series: Series,
    labels: Seq<Pair>,
) -> bool {
    exists|i: int| 0 <= i < updates.len() && #[trigger] grows(updates[i], series, labels)
}

/// A gauge that later updates set holds what they leave, and any other what it
/// held before.
pub proof fn later_updates_have_the_last_word(
    a: Seq<UpdateModel>,
    b: Seq<UpdateModel>,
    series: Series,
    labels: Seq<Pair>,
)
    ensures
        held(a + b, series, labels) == match held(b, series, labels) {
            Some(v) => Some(v),
            None => held(a, series, labels),
        },
    decreases b.len(),
{
    if b.len() == 0 {
        assert(a + b =~= a);
    } else {
        assert((a + b).drop_last() =~= a + b.drop_last());
        later_updates_have_the_last_word(a, b.drop_last(), series, labels);
    }
}

proof fn held_only_if_set(updates: Seq<UpdateModel>, series: Series, labels: Seq<Pair>)
    ensures
        held(updates, series, labels) is Some <==> exists|i: int|
            0 <= i < updates.len() && #[trigger] sets(updates[i], series, labels),
        held(updates, series, labels) matches Some(v) ==> exists|i: int|
            0 <= i < updates.len() && updates[i] == (UpdateModel::Gauge {
                series,
                labels,
                value: v,
            }),
    decreases updates.len(),
{
    if updates.len() > 0 {
        let front = updates.drop_last();
        let n = updates.len() - 1;
        held_only_if_set(front, series, labels);
        assert(updates[n] == updates.last());
        if sets(updates.last(), series, labels) {
            assert(sets(updates[n], series, labels));
        } else {
            if held(front, series, labels) is Some {
                let i = choose|i: int|
                    0 <= i < front.len() && #[trigger] sets(front[i], series, labels);
                assert(sets(updates[i], series, labels));
                let v = held(front, series, labels)->0;
                let j = choose|j: int|
                    0 <= j < front.len() && front[j] == (UpdateModel::Gauge {
                        series,
                        labels,
                        value: v,
                    });
                assert(updates[j] == front[j]);
            }
            if exists|i: int| 0 <= i < updates.len() && #[trigger] sets(updates[i], series, labels) {
                let i = choose|i: int|
                    0 <= i < updates.len() && #[trigger] sets(updates[i], series, labels);
                assert(sets(front[i], series, labels));
            }
        }
    }
}

proof fn not_set_not_held(updates: Seq<UpdateModel>, series: Series, labels: Seq<Pair>)
    requires
        forall|i: int| 0 <= i < updates.len() ==> !sets(#[trigger] updates[i], series, labels),
    ensures
        held(updates, series, labels) is None,
{
    held_only_if_set(updates, series, labels);
}

proof fn not_grown_not_counted(updates: Seq<UpdateModel>, series: Series, labels: Seq<Pair>)
    requires
        forall|i: int| 0 <= i < updates.len() ==> !grows(#[trigger] updates[i], series, labels),
    ensures
        metrics::total(updates, series, labels) == 0,
    decreases updates.len(),
{
    if updates.len() > 0 {
        let front = updates.drop_last();
        assert forall|i: int| 0 <= i < front.len() implies !grows(
            #[trigger] front[i],
            series,
            labels,
        ) by {
            assert(front[i] == updates[i]);
        }
        not_grown_not_counted(front, series, labels);
        assert(!grows(updates[updates.len() - 1], series, labels));
    }
}

/// Where counters only grow by positive amounts, one has a series exactly when
/// its total is positive.
pub proof fn counted_means_positive(
    updates: Seq<UpdateModel>,
    series: Series,
    labels: Seq<Pair>,
)
    requires
        forall|i: int| 0 <= i < updates.len() ==> metrics::is_positive(#[trigger] updates[i]),
    ensures
        is_counted(updates, series, labels) <==> metrics::total(updates, series, labels) > 0,
    decreases updates.len(),
{
    if updates.len() > 0 {
        let front = updates.drop_last();
        let n = updates.len() - 1;
        assert forall|i: int| 0 <= i < front.len() implies metrics::is_positive(
            #[trigger] front[i],
        ) by {
            assert(front[i] == updates[i]);
        }
        counted_means_positive(front, series, labels);
        assert(metrics::is_positive(updates[n]));
        if is_counted(front, series, labels) {
            let i = choose|i: int|
                0 <= i < front.len() && #[trigger] grows(front[i], series, labels);
            assert(grows(updates[i], series, labels));
        }
        if is_counted(updates, series, labels) && !grows(updates[n], series, labels) {
            let i = choose|i: int|
                0 <= i < updates.len() && #[trigger] grows(updates[i], series, labels);
            assert(grows(front[i], series, labels));
        }
        if grows(updates[n], series, labels) {
            assert(is_counted(updates, series, labels));
        }
    }
}

// ---------------------------------------------------------------------------
// Runs of bandwidth packets
// ---------------------------------------------------------------------------

/// All the updates that a run of bandwidth packets makes.
pub open spec fn bandwidth_run(
    sink: BandwidthSink,
    packets: Seq<BandwidthMetrics>,
) -> Seq<UpdateModel>
    decreases packets.len(),
{
    if packets.len() == 0 {
        seq![]
    } else {
        bandwidth_run(sink, packets.drop_last()) + sink.updates(packets.last())
    }
}

/// All the packets are about this topic and consumer group.
pub open spec fn are_about(
    packets: Seq<BandwidthMetrics>,
    topic: Seq<char>,
    group: Seq<char>,
) -> bool {
    forall|i: int|
        0 <= i < packets.len() ==> (#[trigger] packets[i]).topic@ == topic
            && packets[i].consumer_group@ == group
}

/// The labels of the cluster-level series of a consumer.
pub open spec fn consumer_labels(
    sink: BandwidthSink,
    topic: Seq<char>,
    group: Seq<char>,
) -> Seq<Pair> {
    metrics::identity_labels(topic, group, sink.identity.service@, sink.identity.team@)
}

/// The labels of a broker's info series.
pub open spec fn broker_labels(topology: Seq<Pair>, b: BrokerInfo) -> Seq<Pair> {
    topology + seq![
        ("broker_id"@, b.id@),
        ("broker_host"@, b.host@),
        ("broker_port"@, b.port@),
        ("broker_rack"@, b.rack@),
    ]
}

/// The sum of the positive deltas that the packets hold for a counter.
pub open spec fn run_sum(
    packets: Seq<BandwidthMetrics>,
    series: Series,
    partition: i32,
    compression: Seq<char>,
) -> nat
    decreases packets.len(),
{
    if packets.len() == 0 {
        0
    } else {
        run_sum(packets.drop_last(), series, partition, compression) + metrics::positive_sum(
            packets.last().partitions@,
            series,
            partition,
            compression,
        )
    }
}

/// Some packet reports a broker with these labels.
pub open spec fn is_reported(
    packets: Seq<BandwidthMetrics>,
    topology: Seq<Pair>,
    labels: Seq<Pair>,
) -> bool {
    exists|i: int, j: int|
        0 <= i < packets.len() && 0 <= j < packets[i].brokers@.len() && #[trigger] broker_labels(
            topology,
            packets[i].brokers@[j],
        ) == labels
}

/// The collection time of the latest packet that has one, in whole seconds.
pub open spec fn last_collection(packets: Seq<BandwidthMetrics>) -> Option<i64>
    decreases packets.len(),
{
    if packets.len() == 0 {
        None
    } else if packets.last().ts_unix_ns != 0 {
        Some(metrics::whole_seconds(packets.last().ts_unix_ns as int) as i64)
    } else {
        last_collection(packets.drop_last())
    }
}

proof fn partition_updates_grow(
    sink: BandwidthSink,
    m: BandwidthMetrics,
    partitions: Seq<metrics::PartitionBandwidth>,
    i: int,
)
    requires
        0 <= i < sink.partition_updates(m, partitions).len(),
    ensures
        sink.partition_updates(m, partitions)[i] is Increase,
    decreases partitions.len(),
{
    let earlier = sink.partition_updates(m, partitions.drop_last());
    if i < earlier.len() {
        partition_updates_grow(sink, m, partitions.drop_last(), i);
    } else {
        assert(sink.partition_update(m, partitions.last())[i - earlier.len()] is Increase);
    }
}

proof fn held_after_packet(
    sink: BandwidthSink,
    m: BandwidthMetrics,
    series: Series,
    labels: Seq<Pair>,
)
    ensures
        held(sink.updates(m), series, labels) == match held(
            sink.broker_updates(m, m.brokers@),
            series,
            labels,
        ) {
            Some(v) => Some(v),
            None => held(sink.topology_updates(m), series, labels),
        },
{
    let a = sink.topology_updates(m);
    let b = sink.broker_updates(m, m.brokers@);
    let c = sink.partition_updates(m, m.partitions@);
    assert forall|i: int| 0 <= i < c.len() implies !sets(#[trigger] c[i], series, labels) by {
        partition_updates_grow(sink, m, m.partitions@, i);
    }
    not_set_not_held(c, series, labels);
    later_updates_have_the_last_word(a, b, series, labels);
    later_updates_have_the_last_word(a + b, c, series, labels);
}

proof fn total_after_packet(
    sink: BandwidthSink,
    m: BandwidthMetrics,
    series: Series,
    labels: Seq<Pair>,
)
    ensures
        metrics::total(sink.updates(m), series, labels) == metrics::total(
            sink.partition_updates(m, m.partitions@),
            series,
            labels,
        ),
{
    let a = sink.topology_updates(m);
    let b = sink.broker_updates(m, m.brokers@);
    let c = sink.partition_updates(m, m.partitions@);
    not_grown_not_counted(a, series, labels);
    not_grown_not_counted(b, series, labels);
    metrics::counters_accumulate(a, b, series, labels);
    metrics::counters_accumulate(a + b, c, series, labels);
}

proof fn run_updates_are_positive(sink: BandwidthSink, packets: Seq<BandwidthMetrics>, i: int)
    requires
        0 <= i < bandwidth_run(sink, packets).len(),
    ensures
        metrics::is_positive(bandwidth_run(sink, packets)[i]),
    decreases packets.len(),
{
    let earlier = bandwidth_run(sink, packets.drop_last());
    if i < earlier.len() {
        run_updates_are_positive(sink, packets.drop_last(), i);
    } else {
        metrics::bandwidth_updates_suit_their_series(sink, packets.last(), i - earlier.len());
    }
}

/// Over a run of packets each per-partition counter holds the sum of the
/// positive deltas that the packets report for it, and it has a series exactly
/// when that sum is positive.
pub proof fn bandwidth_counters_hold_the_sum_of_the_deltas(
    sink: BandwidthSink,
    packets: Seq<BandwidthMetrics>,
    topic: Seq<char>,
    group: Seq<char>,
    series: Series,
    partition: i32,
    compression: Seq<char>,
)
    requires
        are_about(packets, topic, group),
        metrics::is_partition_counter(series),
    ensures
        ({
            let labels = metrics::counter_labels(
                consumer_labels(sink, topic, group),
                series,
                partition,
                compression,
            );
            let run = bandwidth_run(sink, packets);
            &&& metrics::total(run, series, labels) == run_sum(
                packets,
                series,
                partition,
                compression,
            )
            &&& is_counted(run, series, labels) <==> run_sum(
                packets,
                series,
                partition,
                compression,
            ) > 0
        }),
    decreases packets.len(),
{
    let labels = metrics::counter_labels(
        consumer_labels(sink, topic, group),
        series,
        partition,
        compression,
    );
    let run = bandwidth_run(sink, packets);
    if packets.len() > 0 {
        let front = packets.drop_last();
        let m = packets.last();
        assert(are_about(front, topic, group));
        assert(packets[packets.len() - 1] == m);
        bandwidth_counters_hold_the_sum_of_the_deltas(
            sink,
            front,
            topic,
            group,
            series,
            partition,
            compression,
        );
        total_after_packet(sink, m, series, labels);
        metrics::partition_counters_grow_by_the_deltas(
            sink,
            m,
            m.partitions@,
            series,
            partition,
            compression,
        );
        metrics::counters_accumulate(bandwidth_run(sink, front), sink.updates(m), series, labels);
    }
    assert forall|i: int| 0 <= i < run.len() implies metrics::is_positive(#[trigger] run[i]) by {
        run_updates_are_positive(sink, packets, i);
    }
    counted_means_positive(run, series, labels);
}

/// Over a run of packets the info series of a broker is one as soon as some
/// packet has reported the broker, and from then on: no packet takes it back.
/// A broker that was never reported has none.
pub proof fn broker_info_is_kept(
    sink: BandwidthSink,
    packets: Seq<BandwidthMetrics>,
    topic: Seq<char>,
    group: Seq<char>,
    labels: Seq<Pair>,
)
    requires
        are_about(packets, topic, group),
    ensures
        held(bandwidth_run(sink, packets), Series::BrokerInfo, labels) == if is_reported(
            packets,
            consumer_labels(sink, topic, group),
            labels,
        ) {
            Some(1i64)
        } else {
            None
        },
    decreases packets.len(),
{
    let topology = consumer_labels(sink, topic, group);
    if packets.len() > 0 {
        let front = packets.drop_last();
        let m = packets.last();
        let n = packets.len() - 1;
        assert(are_about(front, topic, group));
        assert(packets[n] == m);
        broker_info_is_kept(sink, front, topic, group, labels);
        let brokers = sink.broker_updates(m, m.brokers@);
        not_set_not_held(sink.topology_updates(m), Series::BrokerInfo, labels);
        held_after_packet(sink, m, Series::BrokerInfo, labels);
        held_only_if_set(brokers, Series::BrokerInfo, labels);
        later_updates_have_the_last_word(
            bandwidth_run(sink, front),
            sink.updates(m),
            Series::BrokerInfo,
            labels,
        );
        if held(brokers, Series::BrokerInfo, labels) is Some {
            let j = choose|j: int|
                0 <= j < brokers.len() && #[trigger] sets(brokers[j], Series::BrokerInfo, labels);
            assert(broker_labels(topology, packets[n].brokers@[j]) == labels);
        }
        if is_reported(front, topology, labels) {
            let (i, j) = choose|i: int, j: int|
                0 <= i < front.len() && 0 <= j < front[i].brokers@.len()
                    && #[trigger] broker_labels(topology, front[i].brokers@[j]) == labels;
            assert(broker_labels(topology, packets[i].brokers@[j]) == labels);
        }
        if is_reported(packets, topology, labels) {
            let (i, j) = choose|i: int, j: int|
                0 <= i < packets.len() && 0 <= j < packets[i].brokers@.len()
                    && #[trigger] broker_labels(topology, packets[i].brokers@[j]) == labels;
            if i < n {
                assert(broker_labels(topology, front[i].brokers@[j]) == labels);
            } else {
                assert(sets(brokers[j], Series::BrokerInfo, labels));
            }
        }
    }
}

/// Two brokers share an info series exactly when they agree in everything that
/// is shown of them.
pub proof fn brokers_have_their_own_series(topology: Seq<Pair>, a: BrokerInfo, b: BrokerInfo)
    ensures
        broker_labels(topology, a) == broker_labels(topology, b) <==> a.id@ == b.id@ && a.host@
            == b.host@ && a.port@ == b.port@ && a.rack@ == b.rack@,
{
    let x = broker_labels(topology, a);
    let y = broker_labels(topology, b);
    let n = topology.len() as int;
    assert(x[n] == ("broker_id"@, a.id@) && y[n] == ("broker_id"@, b.id@));
    assert(x[n + 1] == ("broker_host"@, a.host@) && y[n + 1] == ("broker_host"@, b.host@));
    assert(x[n + 2] == ("broker_port"@, a.port@) && y[n + 2] == ("broker_port"@, b.port@));
    assert(x[n + 3] == ("broker_rack"@, a.rack@) && y[n + 3] == ("broker_rack"@, b.rack@));
}

/// Over a run of packets the collection time is that of the latest packet that
/// has one, in whole seconds; there is none while no packet has had one.
pub proof fn collection_time_is_the_latest(
    sink: BandwidthSink,
    packets: Seq<BandwidthMetrics>,
    topic: Seq<char>,
    group: Seq<char>,
)
    requires
        are_about(packets, topic, group),
    ensures
        held(
            bandwidth_run(sink, packets),
            Series::LastCollection,
            consumer_labels(sink, topic, group),
        ) == last_collection(packets),
    decreases packets.len(),
{
    let labels = consumer_labels(sink, topic, group);
    if packets.len() > 0 {
        let front = packets.drop_last();
        let m = packets.last();
        assert(are_about(front, topic, group));
        assert(packets[packets.len() - 1] == m);
        collection_time_is_the_latest(sink, front, topic, group);
        let brokers = sink.broker_updates(m, m.brokers@);
        let cluster = sink.topology_updates(m);
        not_set_not_held(brokers, Series::LastCollection, labels);
        held_after_packet(sink, m, Series::LastCollection, labels);
        if m.ts_unix_ns == 0 {
            not_set_not_held(cluster, Series::LastCollection, labels);
        } else {
            assert(sets(cluster.last(), Series::LastCollection, labels));
        }
        later_updates_have_the_last_word(
            bandwidth_run(sink, front),
            sink.updates(m),
            Series::LastCollection,
            labels,
        );
    }
}

// ---------------------------------------------------------------------------
// Runs of message packets
// ---------------------------------------------------------------------------

/// The value that the latest packet of a partition has in a gauge.
pub open spec fn latest(packets: Seq<MessageMetrics>, series: Series, partition: i32) -> Option<
    i64,
>
    decreases packets.len(),
{
    if packets.len() == 0 {
        None
    } else if packets.last().partition == partition {
        Some(gauge_of(packets.last(), series))
    } else {
        latest(packets.drop_last(), series, partition)
    }
}

/// What a packet says in one of its two gauges.
pub open spec fn gauge_of(m: MessageMetrics, series: Series) -> i64 {
    if series == Series::QueueDepth {
        m.queue_depth as i64
    } else {
        m.offset
    }
}

proof fn held_after_gauges(
    sink: MessageSink,
    m: MessageMetrics,
    series: Series,
    labels: Seq<Pair>,
)
    requires
        series == Series::QueueDepth || series == Series::CurrentOffset,
    ensures
        held(sink.gauges(m), series, labels) == if sink.label_texts(m.partition) == labels {
            Some(gauge_of(m, series))
        } else {
            None
        },
{
    let gauges = sink.gauges(m);
    let first = gauges.drop_last();
    let none = first.drop_last();
    assert(first.last() == gauges[0]);
    assert(gauges.last() == gauges[1]);
    assert(held(none, series, labels) is None);
    assert(held(first, series, labels) == if sets(gauges[0], series, labels) {
        Some(m.queue_depth as i64)
    } else {
        None
    });
}

proof fn counts_set_nothing(sink: MessageSink, m: MessageMetrics, series: Series, labels: Seq<Pair>)
    ensures
        held(sink.counts(m), series, labels) is None,
{
    let l = sink.label_texts(m.partition);
    let a = metrics::tick(Series::Processed, l, true);
    let b = metrics::tick(Series::Errored, l, m.traits & 1 != 0);
    let c = metrics::tick(Series::Panicked, l, m.traits & 2 != 0);
    let d = metrics::tick(Series::DeadLettered, l, m.traits & 4 != 0);
    let e = metrics::tick(Series::Duplicate, l, m.traits & 16 != 0);
    let f = metrics::tick(Series::UsedOverflow, l, m.traits & 32 != 0);
    not_set_not_held(a, series, labels);
    not_set_not_held(b, series, labels);
    not_set_not_held(c, series, labels);
    not_set_not_held(d, series, labels);
    not_set_not_held(e, series, labels);
    not_set_not_held(f, series, labels);
    later_updates_have_the_last_word(a, b, series, labels);
    later_updates_have_the_last_word(a + b, c, series, labels);
    later_updates_have_the_last_word(a + b + c, d, series, labels);
    later_updates_have_the_last_word(a + b + c + d, e, series, labels);
    later_updates_have_the_last_word(a + b + c + d + e, f, series, labels);
}

proof fn times_set_nothing(sink: MessageSink, m: MessageMetrics, series: Series, labels: Seq<Pair>)
    ensures
        held(sink.times(m), series, labels) is None,
{
    let l = sink.label_texts(m.partition);
    let a = metrics::observation(Series::ProcessDuration, l, m.process_duration_ns as int);
    let b = metrics::observation(Series::DeadLetterDuration, l, m.deadletter_duration_ns as int);
    let c = metrics::observation(Series::QueueWaitDuration, l, metrics::queue_wait(m));
    not_set_not_held(a, series, labels);
    not_set_not_held(b, series, labels);
    not_set_not_held(c, series, labels);
    later_updates_have_the_last_word(a, b, series, labels);
    later_updates_have_the_last_word(a + b, c, series, labels);
}

/// Over a run of packets both gauges of a partition hold what its latest packet
/// says.
pub proof fn gauges_hold_the_latest_packet(
    sink: MessageSink,
    packets: Seq<MessageMetrics>,
    series: Series,
    partition: i32,
)
    requires
        series == Series::QueueDepth || series == Series::CurrentOffset,
    ensures
        held(metrics::run_updates(sink, packets), series, sink.label_texts(partition)) == latest(
            packets,
            series,
            partition,
        ),
    decreases packets.len(),
{
    let labels = sink.label_texts(partition);
    if packets.len() > 0 {
        let m = packets.last();
        let own = sink.label_texts(m.partition);
        gauges_hold_the_latest_packet(sink, packets.drop_last(), series, partition);
        if own == labels {
            assert(own[4] == metrics::partition_label(m.partition));
            assert(labels[4] == metrics::partition_label(partition));
            crate::text::signed_decimal_is_injective(m.partition as int, partition as int);
        }
        let gauges = sink.gauges(m);
        held_after_gauges(sink, m, series, labels);
        counts_set_nothing(sink, m, series, labels);
        times_set_nothing(sink, m, series, labels);
        later_updates_have_the_last_word(sink.counts(m), gauges, series, labels);
        later_updates_have_the_last_word(sink.counts(m) + gauges, sink.times(m), series, labels);
        later_updates_have_the_last_word(
            metrics::run_updates(sink, packets.drop_last()),
            sink.updates(m),
            series,
            labels,
        );
    }
}

// ---------------------------------------------------------------------------
// What the packets themselves say
// ---------------------------------------------------------------------------

/// The times that a histogram has recorded under these labels, in order.
pub open spec fn observed(
    updates: Seq<UpdateModel>,
    series: Series,
    labels: Seq<Pair>,
) -> Seq<u64>
    decreases updates.len(),
{
    if updates.len() == 0 {
        seq![]
    } else {
        let before = observed(updates.drop_last(), series, labels);
        match updates.last() {
            UpdateModel::Observe { series: s, labels: l, nanos } if s == series && l == labels => {
                before.push(nanos)
            },
            _ => before,
        }
    }
}

/// The value in milliseconds that a gauge in seconds holds after the updates.
pub open spec fn held_millis(
    updates: Seq<UpdateModel>,
    series: Series,
    labels: Seq<Pair>,
) -> Option<i64>
    decreases updates.len(),
{
    if updates.len() == 0 {
        None
    } else {
        match updates.last() {
            UpdateModel::GaugeMillis { series: s, labels: l, millis } if s == series && l
                == labels => Some(millis),
            _ => held_millis(updates.drop_last(), series, labels),
        }
    }
}

/// The times of a partition's packets that are positive, in order.
pub open spec fn positive_times(
    packets: Seq<MessageMetrics>,
    partition: i32,
    time: spec_fn(MessageMetrics) -> int,
) -> Seq<u64>
    decreases packets.len(),
{
    if packets.len() == 0 {
        seq![]
    } else {
        let before = positive_times(packets.drop_last(), partition, time);
        if packets.last().partition == partition && time(packets.last()) > 0 {
            before.push(time(packets.last()) as u64)
        } else {
            before
        }
    }
}

/// How many of a partition's packets meet a condition.
pub open spec fn number_of(
    packets: Seq<MessageMetrics>,
    partition: i32,
    condition: spec_fn(MessageMetrics) -> bool,
) -> nat
    decreases packets.len(),
{
    if packets.len() == 0 {
        0
    } else {
        number_of(packets.drop_last(), partition, condition) + if packets.last().partition
            == partition && condition(packets.last()) {
            1nat
        } else {
            0nat
        }
    }
}

/// What a partition's latest packet says.
pub open spec fn last_of(
    packets: Seq<MessageMetrics>,
    partition: i32,
    value: spec_fn(MessageMetrics) -> i64,
) -> Option<i64>
    decreases packets.len(),
{
    if packets.len() == 0 {
        None
    } else if packets.last().partition == partition {
        Some(value(packets.last()))
    } else {
        last_of(packets.drop_last(), partition, value)
    }
}

/// The sum of the positive amounts of those partitions that are meant.
pub open spec fn sum_within(
    partitions: Seq<PartitionBandwidth>,
    meant: spec_fn(PartitionBandwidth) -> bool,
    amount: spec_fn(PartitionBandwidth) -> i64,
) -> nat
    decreases partitions.len(),
{
    if partitions.len() == 0 {
        0
    } else {
        let p = partitions.last();
        sum_within(partitions.drop_last(), meant, amount) + if meant(p) && amount(p) > 0 {
            amount(p) as nat
        } else {
            0nat
        }
    }
}

/// The sum over all the packets.
pub open spec fn sum_over(
    packets: Seq<BandwidthMetrics>,
    meant: spec_fn(PartitionBandwidth) -> bool,
    amount: spec_fn(PartitionBandwidth) -> i64,
) -> nat
    decreases packets.len(),
{
    if packets.len() == 0 {
        0
    } else {
        sum_over(packets.drop_last(), meant, amount) + sum_within(
            packets.last().partitions@,
            meant,
            amount,
        )
    }
}

proof fn observed_of_both(
    a: Seq<UpdateModel>,
    b: Seq<UpdateModel>,
    series: Series,
    labels: Seq<Pair>,
)
    ensures
        observed(a + b, series, labels) == observed(a, series, labels) + observed(
            b,
            series,
            labels,
        ),
    decreases b.len(),
{
    if b.len() == 0 {
        assert(a + b =~= a);
        assert(observed(a + b, series, labels) =~= observed(a, series, labels) + observed(
            b,
            series,
            labels,
        ));
    } else {
        assert((a + b).drop_last() =~= a + b.drop_last());
        assert((a + b).last() == b.last());
        observed_of_both(a, b.drop_last(), series, labels);
        assert(observed(a + b, series, labels) =~= observed(a, series, labels) + observed(
            b,
            series,
            labels,
        ));
    }
}

proof fn nothing_observed(updates: Seq<UpdateModel>, series: Series, labels: Seq<Pair>)
    requires
        forall|i: int| 0 <= i < updates.len() ==> !(#[trigger] updates[i] is Observe),
    ensures
        observed(updates, series, labels) == Seq::<u64>::empty(),
    decreases updates.len(),
{
    if updates.len() > 0 {
        let front = updates.drop_last();
        assert forall|i: int| 0 <= i < front.len() implies !(#[trigger] front[i] is Observe) by {
            assert(front[i] == updates[i]);
        }
        nothing_observed(front, series, labels);
        assert(!(updates[updates.len() - 1] is Observe));
    }
}

proof fn observed_once(s: Series, l: Seq<Pair>, nanos: int, series: Series, labels: Seq<Pair>)
    ensures
        observed(metrics::observation(s, l, nanos), series, labels) == if nanos > 0 && s == series
            && l == labels {
            seq![nanos as u64]
        } else {
            seq![]
        },
{
    let updates = metrics::observation(s, l, nanos);
    assert(observed(seq![], series, labels) =~= seq![]);
    if nanos > 0 {
        assert(updates.drop_last() =~= seq![]);
        assert(updates.last() == updates[0]);
        assert(observed(updates, series, labels) =~= if s == series && l == labels {
            seq![nanos as u64]
        } else {
            seq![]
        });
    }
}

proof fn counts_observe_nothing(
    sink: MessageSink,
    m: MessageMetrics,
    series: Series,
    labels: Seq<Pair>,
)
    ensures
        observed(sink.counts(m), series, labels) == Seq::<u64>::empty(),
{
    let l = sink.label_texts(m.partition);
    let a = metrics::tick(Series::Processed, l, true);
    let b = metrics::tick(Series::Errored, l, m.traits & 1 != 0);
    let c = metrics::tick(Series::Panicked, l, m.traits & 2 != 0);
    let d = metrics::tick(Series::DeadLettered, l, m.traits & 4 != 0);
    let e = metrics::tick(Series::Duplicate, l, m.traits & 16 != 0);
    let f = metrics::tick(Series::UsedOverflow, l, m.traits & 32 != 0);
    nothing_observed(a, series, labels);
    nothing_observed(b, series, labels);
    nothing_observed(c, series, labels);
    nothing_observed(d, series, labels);
    nothing_observed(e, series, labels);
    nothing_observed(f, series, labels);
    observed_of_both(a, b, series, labels);
    observed_of_both(a + b, c, series, labels);
    observed_of_both(a + b + c, d, series, labels);
    observed_of_both(a + b + c + d, e, series, labels);
    observed_of_both(a + b + c + d + e, f, series, labels);
    assert(observed(sink.counts(m), series, labels) =~= seq![]);
}

proof fn observed_after_packet(
    sink: MessageSink,
    m: MessageMetrics,
    series: Series,
    labels: Seq<Pair>,
)
    ensures
        ({
            let time = if series == Series::ProcessDuration {
                m.process_duration_ns as int
            } else if series == Series::DeadLetterDuration {
                m.deadletter_duration_ns as int
            } else if series == Series::QueueWaitDuration {
                metrics::queue_wait(m)
            } else {
                0
            };
            observed(sink.updates(m), series, labels) == if time > 0 && sink.label_texts(
                m.partition,
            ) == labels {
                seq![time as u64]
            } else {
                seq![]
            }
        }),
{
    let l = sink.label_texts(m.partition);
    let a = metrics::observation(Series::ProcessDuration, l, m.process_duration_ns as int);
    let b = metrics::observation(Series::DeadLetterDuration, l, m.deadletter_duration_ns as int);
    let c = metrics::observation(Series::QueueWaitDuration, l, metrics::queue_wait(m));
    observed_once(
        Series::ProcessDuration,
        l,
        m.process_duration_ns as int,
        series,
        labels,
    );
    observed_once(
        Series::DeadLetterDuration,
        l,
        m.deadletter_duration_ns as int,
        series,
        labels,
    );
    observed_once(Series::QueueWaitDuration, l, metrics::queue_wait(m), series, labels);
    observed_of_both(a, b, series, labels);
    observed_of_both(a + b, c, series, labels);
    counts_observe_nothing(sink, m, series, labels);
    nothing_observed(sink.gauges(m), series, labels);
    observed_of_both(sink.counts(m), sink.gauges(m), series, labels);
    observed_of_both(sink.counts(m) + sink.gauges(m), sink.times(m), series, labels);
    let x = observed(a, series, labels);
    let y = observed(b, series, labels);
    let z = observed(c, series, labels);
    assert(observed(sink.updates(m), series, labels) =~= x + y + z);
    assert(x + y + z =~= if series == Series::ProcessDuration {
        x
    } else if series == Series::DeadLetterDuration {
        y
    } else {
        z
    });
}

proof fn own_labels_are_told_apart(sink: MessageSink, a: i32, b: i32)
    ensures
        sink.label_texts(a) == sink.label_texts(b) <==> a == b,
{
    metrics::message_labels_name_consumer_and_partition(sink, a);
    metrics::message_labels_name_consumer_and_partition(sink, b);
}

proof fn observed_over_a_run(
    sink: MessageSink,
    packets: Seq<MessageMetrics>,
    partition: i32,
    series: Series,
    time: spec_fn(MessageMetrics) -> int,
)
    requires
        series == Series::ProcessDuration ==> forall|m: MessageMetrics|
            #[trigger] time(m) == m.process_duration_ns,
        series == Series::DeadLetterDuration ==> forall|m: MessageMetrics|
            #[trigger] time(m) == m.deadletter_duration_ns,
        series == Series::QueueWaitDuration ==> forall|m: MessageMetrics|
            #[trigger] time(m) == metrics::queue_wait(m),
        series == Series::ProcessDuration || series == Series::DeadLetterDuration || series
            == Series::QueueWaitDuration,
    ensures
        observed(metrics::run_updates(sink, packets), series, sink.label_texts(partition))
            == positive_times(packets, partition, time),
    decreases packets.len(),
{
    let labels = sink.label_texts(partition);
    if packets.len() > 0 {
        let front = packets.drop_last();
        let m = packets.last();
        observed_over_a_run(sink, front, partition, series, time);
        observed_after_packet(sink, m, series, labels);
        own_labels_are_told_apart(sink, m.partition, partition);
        observed_of_both(
            metrics::run_updates(sink, front),
            sink.updates(m),
            series,
            labels,
        );
        assert(time(m) == time(m));
        assert(observed(metrics::run_updates(sink, packets), series, labels) =~= positive_times(
            packets,
            partition,
            time,
        ));
    }
}

/// Over a run of packets the three histograms of a partition record, one by one
/// and in nanoseconds, the positive times of its packets: in the process
/// handler, in the dead-letter handler, and between reading and processing
/// where both times are set.
pub proof fn histograms_record_the_times_of_the_packets(
    sink: MessageSink,
    packets: Seq<MessageMetrics>,
    partition: i32,
)
    ensures
        ({
            let run = metrics::run_updates(sink, packets);
            let labels = sink.label_texts(partition);
            &&& observed(run, Series::ProcessDuration, labels) == positive_times(
                packets,
                partition,
                |m: MessageMetrics| m.process_duration_ns as int,
            )
            &&& observed(run, Series::DeadLetterDuration, labels) == positive_times(
                packets,
                partition,
                |m: MessageMetrics| m.deadletter_duration_ns as int,
            )
            &&& observed(run, Series::QueueWaitDuration, labels) == positive_times(
                packets,
                partition,
                |m: MessageMetrics|
                    if m.read_time_ns != 0 && m.process_start_time_ns != 0 {
                        m.process_start_time_ns - m.read_time_ns
                    } else {
                        0
                    },
            )
        }),
{
    observed_over_a_run(
        sink,
        packets,
        partition,
        Series::ProcessDuration,
        |m: MessageMetrics| m.process_duration_ns as int,
    );
    observed_over_a_run(
        sink,
        packets,
        partition,
        Series::DeadLetterDuration,
        |m: MessageMetrics| m.deadletter_duration_ns as int,
    );
    observed_over_a_run(
        sink,
        packets,
        partition,
        Series::QueueWaitDuration,
        |m: MessageMetrics|
            if m.read_time_ns != 0 && m.process_start_time_ns != 0 {
                m.process_start_time_ns - m.read_time_ns
            } else {
                0
            },
    );
}

proof fn occurrences_are_numbers(
    packets: Seq<MessageMetrics>,
    partition: i32,
    series: Series,
    condition: spec_fn(MessageMetrics) -> bool,
)
    requires
        forall|m: MessageMetrics| #[trigger] condition(m) == metrics::counted(series, m),
    ensures
        metrics::occurrences(packets, series, partition) == number_of(
            packets,
            partition,
            condition,
        ),
    decreases packets.len(),
{
    if packets.len() > 0 {
        occurrences_are_numbers(packets.drop_last(), partition, series, condition);
        assert(condition(packets.last()) == metrics::counted(series, packets.last()));
    }
}

/// Over a run of packets the counters of a partition count its packets: all of
/// them as processed, and as errored, panicked, dead-lettered, delivered again
/// or sent over the overflow path those whose framework bit says so.
pub proof fn counters_count_the_packets(
    sink: MessageSink,
    packets: Seq<MessageMetrics>,
    partition: i32,
)
    ensures
        ({
            let run = metrics::run_updates(sink, packets);
            let labels = sink.label_texts(partition);
            &&& metrics::total(run, Series::Processed, labels) == number_of(
                packets,
                partition,
                |m: MessageMetrics| true,
            )
            &&& metrics::total(run, Series::Errored, labels) == number_of(
                packets,
                partition,
                |m: MessageMetrics| m.traits & 1 != 0,
            )
            &&& metrics::total(run, Series::Panicked, labels) == number_of(
                packets,
                partition,
                |m: MessageMetrics| m.traits & 2 != 0,
            )
            &&& metrics::total(run, Series::DeadLettered, labels) == number_of(
                packets,
                partition,
                |m: MessageMetrics| m.traits & 4 != 0,
            )
            &&& metrics::total(run, Series::Duplicate, labels) == number_of(
                packets,
                partition,
                |m: MessageMetrics| m.traits & 16 != 0,
            )
            &&& metrics::total(run, Series::UsedOverflow, labels) == number_of(
                packets,
                partition,
                |m: MessageMetrics| m.traits & 32 != 0,
            )
        }),
{
    metrics::counters_hold_the_number_of_packets(sink, packets, Series::Processed, partition);
    metrics::counters_hold_the_number_of_packets(sink, packets, Series::Errored, partition);
    metrics::counters_hold_the_number_of_packets(sink, packets, Series::Panicked, partition);
    metrics::counters_hold_the_number_of_packets(sink, packets, Series::DeadLettered, partition);
    metrics::counters_hold_the_number_of_packets(sink, packets, Series::Duplicate, partition);
    metrics::counters_hold_the_number_of_packets(sink, packets, Series::UsedOverflow, partition);
    occurrences_are_numbers(packets, partition, Series::Processed, |m: MessageMetrics| true);
    occurrences_are_numbers(
        packets,
        partition,
        Series::Errored,
        |m: MessageMetrics| m.traits & 1 != 0,
    );
    occurrences_are_numbers(
        packets,
        partition,
        Series::Panicked,
        |m: MessageMetrics| m.traits & 2 != 0,
    );
    occurrences_are_numbers(
        packets,
        partition,
        Series::DeadLettered,
        |m: MessageMetrics| m.traits & 4 != 0,
    );
    occurrences_are_numbers(
        packets,
        partition,
        Series::Duplicate,
        |m: MessageMetrics| m.traits & 16 != 0,
    );
    occurrences_are_numbers(
        packets,
        partition,
        Series::UsedOverflow,
        |m: MessageMetrics| m.traits & 32 != 0,
    );
}

proof fn latest_is_last(
    packets: Seq<MessageMetrics>,
    partition: i32,
    series: Series,
    value: spec_fn(MessageMetrics) -> i64,
)
    requires
        forall|m: MessageMetrics| #[trigger] value(m) == gauge_of(m, series),
    ensures
        latest(packets, series, partition) == last_of(packets, partition, value),
    decreases packets.len(),
{
    if packets.len() > 0 {
        latest_is_last(packets.drop_last(), partition, series, value);
        assert(value(packets.last()) == gauge_of(packets.last(), series));
    }
}

/// Over a run of packets the two gauges of a partition hold the queue depth and
/// the offset of its latest packet.
pub proof fn gauges_hold_depth_and_offset(
    sink: MessageSink,
    packets: Seq<MessageMetrics>,
    partition: i32,
)
    ensures
        ({
            let run = metrics::run_updates(sink, packets);
            let labels = sink.label_texts(partition);
            &&& held(run, Series::QueueDepth, labels) == last_of(
                packets,
                partition,
                |m: MessageMetrics| m.queue_depth as i64,
            )
            &&& held(run, Series::CurrentOffset, labels) == last_of(
                packets,
                partition,
                |m: MessageMetrics| m.offset,
            )
        }),
{
    gauges_hold_the_latest_packet(sink, packets, Series::QueueDepth, partition);
    gauges_hold_the_latest_packet(sink, packets, Series::CurrentOffset, partition);
    latest_is_last(
        packets,
        partition,
        Series::QueueDepth,
        |m: MessageMetrics| m.queue_depth as i64,
    );
    latest_is_last(packets, partition, Series::CurrentOffset, |m: MessageMetrics| m.offset);
}

proof fn sums_agree_within(
    partitions: Seq<PartitionBandwidth>,
    series: Series,
    partition: i32,
    compression: Seq<char>,
    meant: spec_fn(PartitionBandwidth) -> bool,
    amount: spec_fn(PartitionBandwidth) -> i64,
)
    requires
        forall|p: PartitionBandwidth|
            #[trigger] meant(p) == metrics::belongs(p, series, partition, compression),
        forall|p: PartitionBandwidth| #[trigger] amount(p) == metrics::delta(series, p),
    ensures
        metrics::positive_sum(partitions, series, partition, compression) == sum_within(
            partitions,
            meant,
            amount,
        ),
    decreases partitions.len(),
{
    if partitions.len() > 0 {
        let p = partitions.last();
        sums_agree_within(
            partitions.drop_last(),
            series,
            partition,
            compression,
            meant,
            amount,
        );
        assert(meant(p) == metrics::belongs(p, series, partition, compression));
        assert(amount(p) == metrics::delta(series, p));
    }
}

proof fn sums_agree(
    packets: Seq<BandwidthMetrics>,
    series: Series,
    partition: i32,
    compression: Seq<char>,
    meant: spec_fn(PartitionBandwidth) -> bool,
    amount: spec_fn(PartitionBandwidth) -> i64,
)
    requires
        forall|p: PartitionBandwidth|
            #[trigger] meant(p) == metrics::belongs(p, series, partition, compression),
        forall|p: PartitionBandwidth| #[trigger] amount(p) == metrics::delta(series, p),
    ensures
        run_sum(packets, series, partition, compression) == sum_over(packets, meant, amount),
    decreases packets.len(),
{
    if packets.len() > 0 {
        sums_agree(packets.drop_last(), series, partition, compression, meant, amount);
        sums_agree_within(
            packets.last().partitions@,
            series,
            partition,
            compression,
            meant,
            amount,
        );
    }
}

/// Over a run of packets the byte and message counters of a partition hold the
/// sums of what its packets say came in and went out, each of its own field,
/// as far as that is positive.
pub proof fn traffic_counters_hold_their_own_sums(
    sink: BandwidthSink,
    packets: Seq<BandwidthMetrics>,
    topic: Seq<char>,
    group: Seq<char>,
    partition: i32,
)
    requires
        are_about(packets, topic, group),
    ensures
        ({
            let run = bandwidth_run(sink, packets);
            let labels = consumer_labels(sink, topic, group).push(
                metrics::partition_label(partition),
            );
            let meant = |p: PartitionBandwidth| p.id == partition;
            &&& metrics::total(run, Series::ReceivedBytes, labels) == sum_over(
                packets,
                meant,
                |p: PartitionBandwidth| p.received_bytes,
            )
            &&& metrics::total(run, Series::TransmittedBytes, labels) == sum_over(
                packets,
                meant,
                |p: PartitionBandwidth| p.transmitted_bytes,
            )
            &&& metrics::total(run, Series::ReceivedMessages, labels) == sum_over(
                packets,
                meant,
                |p: PartitionBandwidth| p.received_message_count,
            )
        }),
{
    let none = Seq::<char>::empty();
    let meant = |p: PartitionBandwidth| p.id == partition;
    bandwidth_counters_hold_the_sum_of_the_deltas(
        sink,
        packets,
        topic,
        group,
        Series::ReceivedBytes,
        partition,
        none,
    );
    bandwidth_counters_hold_the_sum_of_the_deltas(
        sink,
        packets,
        topic,
        group,
        Series::TransmittedBytes,
        partition,
        none,
    );
    bandwidth_counters_hold_the_sum_of_the_deltas(
        sink,
        packets,
        topic,
        group,
        Series::ReceivedMessages,
        partition,
        none,
    );
    sums_agree(
        packets,
        Series::ReceivedBytes,
        partition,
        none,
        meant,
        |p: PartitionBandwidth| p.received_bytes,
    );
    sums_agree(
        packets,
        Series::TransmittedBytes,
        partition,
        none,
        meant,
        |p: PartitionBandwidth| p.transmitted_bytes,
    );
    sums_agree(
        packets,
        Series::ReceivedMessages,
        partition,
        none,
        meant,
        |p: PartitionBandwidth| p.received_message_count,
    );
}

/// Over a run of packets the two compression counters of a partition hold, for
/// each algorithm, the sums of the compressed and of the uncompressed bytes
/// that its packets report for it; packets that name no algorithm count as
/// `unknown`.
pub proof fn compression_counters_hold_their_own_sums(
    sink: BandwidthSink,
    packets: Seq<BandwidthMetrics>,
    topic: Seq<char>,
    group: Seq<char>,
    partition: i32,
    compression: Seq<char>,
)
    requires
        are_about(packets, topic, group),
    ensures
        ({
            let run = bandwidth_run(sink, packets);
            let labels = consumer_labels(sink, topic, group).push(
                metrics::partition_label(partition),
            ).push(("compression"@, compression));
            let meant = |p: PartitionBandwidth|
                p.id == partition && compression == if p.compression@.len() == 0 {
                    "unknown"@
                } else {
                    p.compression@
                };
            &&& metrics::total(run, Series::CompressedBytes, labels) == sum_over(
                packets,
                meant,
                |p: PartitionBandwidth| p.compressed_bytes,
            )
            &&& metrics::total(run, Series::UncompressedBytes, labels) == sum_over(
                packets,
                meant,
                |p: PartitionBandwidth| p.uncompressed_bytes,
            )
        }),
{
    let meant = |p: PartitionBandwidth|
        p.id == partition && compression == if p.compression@.len() == 0 {
            "unknown"@
        } else {
            p.compression@
        };
    bandwidth_counters_hold_the_sum_of_the_deltas(
        sink,
        packets,
        topic,
        group,
        Series::CompressedBytes,
        partition,
        compression,
    );
    bandwidth_counters_hold_the_sum_of_the_deltas(
        sink,
        packets,
        topic,
        group,
        Series::UncompressedBytes,
        partition,
        compression,
    );
    sums_agree(
        packets,
        Series::CompressedBytes,
        partition,
        compression,
        meant,
        |p: PartitionBandwidth| p.compressed_bytes,
    );
    sums_agree(
        packets,
        Series::UncompressedBytes,
        partition,
        compression,
        meant,
        |p: PartitionBandwidth| p.uncompressed_bytes,
    );
}

proof fn held_of_one(u: UpdateModel, series: Series, labels: Seq<Pair>)
    ensures
        held(seq![u], series, labels) == match u {
            UpdateModel::Gauge { series: s, labels: l, value } if s == series && l == labels => {
                Some(value)
            },
            _ => None,
        },
        held_millis(seq![u], series, labels) == match u {
            UpdateModel::GaugeMillis { series: s, labels: l, millis } if s == series && l
                == labels => Some(millis),
            _ => None,
        },
{
    assert(seq![u].drop_last() =~= seq![]);
    assert(seq![u].last() == u);
    assert(held(seq![], series, labels) is None);
    assert(held_millis(seq![], series, labels) is None);
}

proof fn later_millis_have_the_last_word(
    a: Seq<UpdateModel>,
    b: Seq<UpdateModel>,
    series: Series,
    labels: Seq<Pair>,
)
    ensures
        held_millis(a + b, series, labels) == match held_millis(b, series, labels) {
            Some(v) => Some(v),
            None => held_millis(a, series, labels),
        },
    decreases b.len(),
{
    if b.len() == 0 {
        assert(a + b =~= a);
    } else {
        assert((a + b).drop_last() =~= a + b.drop_last());
        later_millis_have_the_last_word(a, b.drop_last(), series, labels);
    }
}

proof fn no_millis(updates: Seq<UpdateModel>, series: Series, labels: Seq<Pair>)
    requires
        forall|i: int| 0 <= i < updates.len() ==> !(#[trigger] updates[i] is GaugeMillis),
    ensures
        held_millis(updates, series, labels) is None,
    decreases updates.len(),
{
    if updates.len() > 0 {
        let front = updates.drop_last();
        assert forall|i: int| 0 <= i < front.len() implies !(#[trigger] front[i] is GaugeMillis) by {
            assert(front[i] == updates[i]);
        }
        no_millis(front, series, labels);
        assert(!(updates[updates.len() - 1] is GaugeMillis));
    }
}

proof fn cluster_gauges_after_packet(sink: BandwidthSink, m: BandwidthMetrics)
    ensures
        ({
            let labels = sink.topology_labels(m);
            let updates = sink.updates(m);
            &&& held(updates, Series::BrokerCount, labels) == Some(m.brokers@.len() as i64)
            &&& held(updates, Series::PartitionCount, labels) == Some(m.partitions@.len() as i64)
            &&& held_millis(updates, Series::StatsInterval, labels) == Some(m.stats_interval_ms)
        }),
{
    let labels = sink.topology_labels(m);
    let cluster = sink.topology_updates(m);
    let brokers = sink.broker_updates(m, m.brokers@);
    let partitions = sink.partition_updates(m, m.partitions@);
    let a = cluster[0];
    let b = cluster[1];
    let c = cluster[2];
    let rest = cluster.skip(3);
    assert(cluster =~= seq![a] + seq![b] + seq![c] + rest);
    not_set_not_held(brokers, Series::BrokerCount, labels);
    not_set_not_held(brokers, Series::PartitionCount, labels);
    not_set_not_held(rest, Series::BrokerCount, labels);
    not_set_not_held(rest, Series::PartitionCount, labels);
    held_after_packet(sink, m, Series::BrokerCount, labels);
    held_after_packet(sink, m, Series::PartitionCount, labels);
    held_of_one(a, Series::BrokerCount, labels);
    held_of_one(b, Series::BrokerCount, labels);
    held_of_one(c, Series::BrokerCount, labels);
    held_of_one(a, Series::PartitionCount, labels);
    held_of_one(b, Series::PartitionCount, labels);
    held_of_one(c, Series::PartitionCount, labels);
    held_of_one(c, Series::StatsInterval, labels);
    later_updates_have_the_last_word(seq![a], seq![b], Series::BrokerCount, labels);
    later_updates_have_the_last_word(seq![a] + seq![b], seq![c], Series::BrokerCount, labels);
    later_updates_have_the_last_word(
        seq![a] + seq![b] + seq![c],
        rest,
        Series::BrokerCount,
        labels,
    );
    later_updates_have_the_last_word(seq![a], seq![b], Series::PartitionCount, labels);
    later_updates_have_the_last_word(seq![a] + seq![b], seq![c], Series::PartitionCount, labels);
    later_updates_have_the_last_word(
        seq![a] + seq![b] + seq![c],
        rest,
        Series::PartitionCount,
        labels,
    );
    no_millis(rest, Series::StatsInterval, labels);
    no_millis(brokers, Series::StatsInterval, labels);
    assert forall|i: int| 0 <= i < partitions.len() implies !(#[trigger] partitions[i] is GaugeMillis) by {
        partition_updates_grow(sink, m, m.partitions@, i);
    }
    no_millis(partitions, Series::StatsInterval, labels);
    later_millis_have_the_last_word(seq![a] + seq![b], seq![c], Series::StatsInterval, labels);
    later_millis_have_the_last_word(
        seq![a] + seq![b] + seq![c],
        rest,
        Series::StatsInterval,
        labels,
    );
    later_millis_have_the_last_word(cluster, brokers, Series::StatsInterval, labels);
    later_millis_have_the_last_word(cluster + brokers, partitions, Series::StatsInterval, labels);
}

/// After a run of packets the gauges of the cluster hold what the last packet
/// says: how many brokers it lists, how many partitions it lists, and its
/// collection cadence in milliseconds.
pub proof fn cluster_gauges_hold_the_last_packet(
    sink: BandwidthSink,
    packets: Seq<BandwidthMetrics>,
    topic: Seq<char>,
    group: Seq<char>,
)
    requires
        packets.len() > 0,
        are_about(packets, topic, group),
    ensures
        ({
            let run = bandwidth_run(sink, packets);
            let labels = consumer_labels(sink, topic, group);
            let last = packets.last();
            &&& held(run, Series::BrokerCount, labels) == Some(last.brokers@.len() as i64)
            &&& held(run, Series::PartitionCount, labels) == Some(last.partitions@.len() as i64)
            &&& held_millis(run, Series::StatsInterval, labels) == Some(last.stats_interval_ms)
        }),
{
    let labels = consumer_labels(sink, topic, group);
    let front = packets.drop_last();
    let m = packets.last();
    assert(packets[packets.len() - 1] == m);
    cluster_gauges_after_packet(sink, m);
    let before = bandwidth_run(sink, front);
    later_updates_have_the_last_word(before, sink.updates(m), Series::BrokerCount, labels);
    later_updates_have_the_last_word(before, sink.updates(m), Series::PartitionCount, labels);
    later_millis_have_the_last_word(before, sink.updates(m), Series::StatsInterval, labels);
}

/// The latest collection time that a packet has is the one that shows, in whole
/// seconds; a packet without one changes nothing.
pub proof fn collection_time_is_the_last_one_given(
    sink: BandwidthSink,
    packets: Seq<BandwidthMetrics>,
    topic: Seq<char>,
    group: Seq<char>,
)
    requires
        packets.len() > 0,
        are_about(packets, topic, group),
    ensures
        ({
            let labels = consumer_labels(sink, topic, group);
            let ns = packets.last().ts_unix_ns as int;
            let shown = held(bandwidth_run(sink, packets), Series::LastCollection, labels);
            &&& ns == 0 ==> shown == held(
                bandwidth_run(sink, packets.drop_last()),
                Series::LastCollection,
                labels,
            )
            &&& ns > 0 ==> (shown matches Some(s) && s * 1_000_000_000 <= ns < (s + 1)
                * 1_000_000_000)
            &&& ns < 0 ==> (shown matches Some(s) && (s - 1) * 1_000_000_000 < ns <= s
                * 1_000_000_000)
        }),
{
    let front = packets.drop_last();
    assert(are_about(front, topic, group));
    collection_time_is_the_latest(sink, packets, topic, group);
    collection_time_is_the_latest(sink, front, topic, group);
    let ns = packets.last().ts_unix_ns as int;
    metrics::whole_seconds_are_complete(ns);
    metrics::whole_seconds_are_complete(-ns);
}

/// The cluster-level series of a consumer carry its topic, its group, the
/// service and the team; the info series of a broker carries its ID, its host,
/// its port and its rack behind them.
pub proof fn cluster_labels_name_consumer_and_broker(
    sink: BandwidthSink,
    topic: Seq<char>,
    group: Seq<char>,
    b: BrokerInfo,
)
    ensures
        ({
            let labels = consumer_labels(sink, topic, group);
            &&& labels.len() == 4
            &&& labels[0] == ("topic"@, topic)
            &&& labels[1] == ("consumer_group"@, group)
            &&& labels[2] == ("service"@, sink.identity.service@)
            &&& labels[3] == ("team"@, sink.identity.team@)
        }),
        ({
            let consumer = consumer_labels(sink, topic, group);
            let labels = broker_labels(consumer, b);
            &&& labels.len() == 8
            &&& labels.take(4) == consumer
            &&& labels[4] == ("broker_id"@, b.id@)
            &&& labels[5] == ("broker_host"@, b.host@)
            &&& labels[6] == ("broker_port"@, b.port@)
            &&& labels[7] == ("broker_rack"@, b.rack@)
        }),
{
    let consumer = consumer_labels(sink, topic, group);
    assert(broker_labels(consumer, b).take(4) =~= consumer);
}

/// The counter growth stems from this partition of a packet: it is one of the
/// partition's own amounts, under the labels of the consumer and the partition,
/// and for the compression counters of the algorithm.
pub open spec fn grows_by(
    topology: Seq<Pair>,
    p: PartitionBandwidth,
    series: Series,
    labels: Seq<Pair>,
    by: u64,
) -> bool {
    let partition = topology.push(("partition"@, text::signed_decimal(p.id as int)));
    let algorithm = if p.compression@.len() == 0 {
        "unknown"@
    } else {
        p.compression@
    };
    match series {
        Series::ReceivedBytes => labels == partition && by == p.received_bytes,
        Series::TransmittedBytes => labels == partition && by == p.transmitted_bytes,
        Series::ReceivedMessages => labels == partition && by == p.received_message_count,
        Series::CompressedBytes => labels == partition.push(("compression"@, algorithm)) && by
            == p.compressed_bytes,
        Series::UncompressedBytes => labels == partition.push(("compression"@, algorithm)) && by
            == p.uncompressed_bytes,
        _ => false,
    }
}

proof fn growth_stems_from_a_partition(
    sink: BandwidthSink,
    m: BandwidthMetrics,
    partitions: Seq<PartitionBandwidth>,
    i: int,
)
    requires
        0 <= i < sink.partition_updates(m, partitions).len(),
    ensures
        sink.partition_updates(m, partitions)[i] matches UpdateModel::Increase { series, labels, by }
            && by > 0 && exists|j: int|
            0 <= j < partitions.len() && grows_by(
                sink.topology_labels(m),
                #[trigger] partitions[j],
                series,
                labels,
                by,
            ),
    decreases partitions.len(),
{
    let before = partitions.drop_last();
    let earlier = sink.partition_updates(m, before);
    let topology = sink.topology_labels(m);
    if i < earlier.len() {
        growth_stems_from_a_partition(sink, m, before, i);
        if let UpdateModel::Increase { series, labels, by } = earlier[i] {
            let j = choose|j: int|
                0 <= j < before.len() && grows_by(
                    topology,
                    #[trigger] before[j],
                    series,
                    labels,
                    by,
                );
            assert(grows_by(topology, partitions[j], series, labels, by));
        }
    } else {
        let p = partitions.last();
        let u = sink.partition_update(m, p)[i - earlier.len()];
        assert(sink.partition_updates(m, partitions)[i] == u);
        assert(partitions[partitions.len() - 1] == p);
        assert(u matches UpdateModel::Increase { series, labels, by } && by > 0 && grows_by(
            topology,
            p,
            series,
            labels,
            by,
        ));
    }
}

/// Nothing is recorded that is not in the packet: every update of a bandwidth
/// packet is a gauge of the cluster, the one of a broker that the packet names,
/// or the growth of a counter of a partition that it names, each under the
/// labels of its own series and no others.
pub proof fn bandwidth_updates_stem_from_their_packet(
    sink: BandwidthSink,
    m: BandwidthMetrics,
    i: int,
)
    requires
        0 <= i < sink.updates(m).len(),
    ensures
        ({
            let topology = seq![
                ("topic"@, m.topic@),
                ("consumer_group"@, m.consumer_group@),
                ("service"@, sink.identity.service@),
                ("team"@, sink.identity.team@),
            ];
            match sink.updates(m)[i] {
                UpdateModel::Gauge { series, labels, value } => match series {
                    Series::BrokerCount => labels == topology && value == m.brokers@.len() as i64,
                    Series::PartitionCount => labels == topology && value
                        == m.partitions@.len() as i64,
                    Series::LastCollection => labels == topology && m.ts_unix_ns != 0,
                    Series::BrokerInfo => value == 1 && exists|j: int|
                        0 <= j < m.brokers@.len() && labels == topology + seq![
                            ("broker_id"@, (#[trigger] m.brokers@[j]).id@),
                            ("broker_host"@, m.brokers@[j].host@),
                            ("broker_port"@, m.brokers@[j].port@),
                            ("broker_rack"@, m.brokers@[j].rack@),
                        ],
                    _ => false,
                },
                UpdateModel::GaugeMillis { series, labels, millis } => series is StatsInterval
                    && labels == topology && millis == m.stats_interval_ms,
                UpdateModel::Increase { series, labels, by } => by > 0 && exists|j: int|
                    0 <= j < m.partitions@.len() && grows_by(
                        topology,
                        #[trigger] m.partitions@[j],
                        series,
                        labels,
                        by,
                    ),
                UpdateModel::Observe { .. } => false,
            }
        }),
{
    let cluster = sink.topology_updates(m);
    let brokers = sink.broker_updates(m, m.brokers@);
    let topology = sink.topology_labels(m);
    let u = sink.updates(m)[i];
    if i < cluster.len() {
        assert(u == cluster[i]);
    } else if i < cluster.len() + brokers.len() {
        let j = i - cluster.len();
        assert(u == sink.broker_update(m, m.brokers@[j]));
    } else {
        let k = i - cluster.len() - brokers.len();
        assert(u == sink.partition_updates(m, m.partitions@)[k]);
        growth_stems_from_a_partition(sink, m, m.partitions@, k);
    }
}

} // verus!
