//! The sample producer's partitions, orders and broker list.

use llingr_kafka::producer::{
    broker_list, partition_for, partition_of_hash, sample_order, split_at_commas, trim_text,
};
use std::hash::{Hash, Hasher};

#[test]
fn partitions_are_in_range_and_stable() {
    let mut used = [false; 12];
    for i in 0..200 {
        let key = format!("order-{i}");
        let partition = partition_for(&key, 12);
        assert!((0..12).contains(&partition));
        assert_eq!(partition, partition_for(&key, 12));
        used[partition as usize] = true;
    }
    assert!(used.iter().all(|u| *u), "the keys spread over the partitions");
    assert_eq!(partition_for("anything", 1), 0);
}

/// The hash is the one that the standard library's hasher gives.
#[test]
fn partition_is_the_hash_modulo_the_count() {
    for key in ["", "a", "c-4711", "größe"] {
        let mut hasher = std::collections::hash_map::DefaultHasher::new();
        key.hash(&mut hasher);
        assert_eq!(partition_for(key, 12), (hasher.finish() % 12) as i32);
    }
    assert_eq!(partition_of_hash(25, 12), 1);
    assert_eq!(partition_of_hash(u64::MAX, 10), 5);
    assert_eq!(partition_of_hash(7, -1), 7);
}

#[test]
fn sample_orders_go_round() {
    let order = sample_order(0, "id-0".to_string(), "now".to_string());
    assert_eq!(order.order_id, "id-0");
    assert_eq!(order.customer_id, "c-4711");
    assert_eq!(order.sku, "SKU-0042");
    assert_eq!(order.quantity, 1);
    assert_eq!(order.unit_price_cents, 999);
    assert_eq!(order.currency, "GBP");
    assert_eq!(order.placed_at, "now");

    let order = sample_order(7, "id-7".to_string(), "now".to_string());
    assert_eq!(order.customer_id, "c-2049");
    assert_eq!(order.sku, "SKU-1337");
    assert_eq!(order.quantity, 3);
    assert_eq!(order.unit_price_cents, 1069);

    let order = sample_order(149, "id".to_string(), "now".to_string());
    assert_eq!(order.customer_id, "c-9930");
    assert_eq!(order.sku, "SKU-0101");
    assert_eq!(order.quantity, 5);
    assert_eq!(order.unit_price_cents, 1489);
}

#[test]
fn broker_lists_are_trimmed_and_named() {
    assert_eq!(broker_list("redpanda:9092"), ["redpanda:9092"]);
    assert_eq!(
        broker_list(" b1:9092 ,b2:9092,, \u{a0}\t b 3 \n,"),
        ["b1:9092", "b2:9092", "b 3"]
    );
    assert!(broker_list("").is_empty());
    assert!(broker_list(" , ,").is_empty());
}

#[test]
fn pieces_join_to_the_text_again() {
    for text in ["", ",", "a", "a,b", ",a,,b,", " a , b "] {
        let pieces = split_at_commas(text);
        assert_eq!(pieces.join(","), text);
        assert!(pieces.iter().all(|p| !p.contains(',')));
    }
    assert_eq!(split_at_commas(",a,"), ["", "a", ""]);
}

#[test]
fn white_space_is_trimmed_at_the_ends_alone() {
    for (text, want) in [
        ("", ""),
        (" \t\n", ""),
        ("a", "a"),
        (" a b\u{2003}", "a b"),
        ("\u{a0}x", "x"),
    ] {
        assert_eq!(trim_text(text), want);
        assert_eq!(trim_text(text), text.trim());
    }
}

/// Exactly the characters that the standard library takes for white space are
/// trimmed.
#[test]
fn every_white_space_character_is_trimmed() {
    let mut trimmed = 0;
    for n in 0..=0x10ffffu32 {
        if let Some(c) = char::from_u32(n) {
            if trim_text(&format!("{c}x{c}")) == "x" {
                trimmed += 1;
                assert!(c.is_whitespace(), "{n:x}");
            }
        }
    }
    assert_eq!(trimmed, 25);
    assert_eq!(trim_text("\u{3000}a\u{85}"), "a");
    assert_eq!(trim_text("\u{200b}a"), "\u{200b}a");
}
