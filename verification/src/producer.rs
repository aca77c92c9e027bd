//! The order events of the sample producer: which partition an order goes to,
//! what it holds, and which brokers it is sent through.

use crate::foreign;
use crate::foreign::hash_text;
use crate::text;
use crate::text::{characters, push_text};
use std::collections::hash_map::DefaultHasher;
use std::hash::Hasher;
use vstd::prelude::*;
use vstd::std_specs::hash::*;
use vstd::string::*;

verus! {

// ---------------------------------------------------------------------------
// Partitions
// ---------------------------------------------------------------------------

/// The hash of a key, as `DefaultHasher` gives it.
pub open spec fn key_hash(key: Seq<char>) -> u64 {
    DefaultHasher::spec_finish(foreign::text_writes(key))
}

/// The partition that a hash selects.
pub open spec fn partition_of(hash: u64, partitions: i32) -> i32 {
    (hash % (partitions as u64)) as i32
}

/// The partition that a hash selects: the hash modulo the number of
/// partitions.
pub fn partition_of_hash(hash: u64, partitions: i32) -> (r: i32)
    requires
        partitions != 0,
    ensures
        r == partition_of(hash, partitions),
        partitions > 0 ==> r == hash as int % partitions as int,
        partitions > 0 ==> 0 <= r < partitions,
{
    let n = partitions as u64;
    assert(partitions != 0i32 ==> (partitions as u64) != 0u64) by (bit_vector);
    (hash % n) as i32
}

/// The partition for a key: its hash modulo the number of partitions.
pub fn partition_for(key: &str, partitions: i32) -> (r: i32)
    requires
        partitions != 0,
    ensures
        r == partition_of(key_hash(key@), partitions),
        partitions > 0 ==> 0 <= r < partitions,
{
    let mut hasher = DefaultHasher::new();
    hash_text(key, &mut hasher);
    proof {
        assert(Seq::<Seq<u8>>::empty() + foreign::text_writes(key@) =~= foreign::text_writes(key@));
    }
    partition_of_hash(hasher.finish(), partitions)
}

// ---------------------------------------------------------------------------
// Orders
// ---------------------------------------------------------------------------

/// One order event. The order ID is also the record key.
#[derive(Debug)]
pub struct Order {
    /// The order ID.
    pub order_id: String,
    /// The customer.
    pub customer_id: String,
    /// The article.
    pub sku: String,
    /// How many were ordered.
    pub quantity: u64,
    /// Price of one, in minor units.
    pub unit_price_cents: u64,
    /// ISO 4217 currency code.
    pub currency: String,
    /// When the order was placed.
    pub placed_at: String,
}

/// The customer at a place in the cycle.
pub open spec fn customer(place: int) -> Seq<char> {
    if place == 0 {
        "c-4711"@
    } else if place == 1 {
        "c-8100"@
    } else if place == 2 {
        "c-2049"@
    } else if place == 3 {
        "c-3312"@
    } else {
        "c-9930"@
    }
}

/// The article at a place in the cycle.
pub open spec fn article(place: int) -> Seq<char> {
    if place == 0 {
        "SKU-0042"@
    } else if place == 1 {
        "SKU-1337"@
    } else if place == 2 {
        "SKU-2020"@
    } else if place == 3 {
        "SKU-7777"@
    } else {
        "SKU-0101"@
    }
}

fn customer_name(place: usize) -> (r: &'static str)
    requires
        place < 5,
    ensures
        r@ == customer(place as int),
{
    match place {
        0 => "c-4711",
        1 => "c-8100",
        2 => "c-2049",
        3 => "c-3312",
        _ => "c-9930",
    }
}

fn article_name(place: usize) -> (r: &'static str)
    requires
        place < 5,
    ensures
        r@ == article(place as int),
{
    match place {
        0 => "SKU-0042",
        1 => "SKU-1337",
        2 => "SKU-2020",
        3 => "SKU-7777",
        _ => "SKU-0101",
    }
}

/// The `i`-th order of a run: the customers go round, the article changes with
/// each round, and quantity and price vary.
pub fn sample_order(i: u64, order_id: String, placed_at: String) -> (r: Order)
    ensures
        r.order_id@ == order_id@,
        r.customer_id@ == customer((i as usize) as int % 5),
        r.sku@ == article((i as usize) as int / 5 % 5),
        r.quantity == i as int % 5 + 1,
        r.unit_price_cents == 999 + i as int % 50 * 10,
        r.currency@ == "GBP"@,
        r.placed_at@ == placed_at@,
{
    let n = i as usize;
    Order {
        order_id,
        customer_id: customer_name(n % 5).to_owned(),
        sku: article_name((n / 5) % 5).to_owned(),
        quantity: (i % 5) + 1,
        unit_price_cents: 999 + (i % 50) * 10,
        currency: "GBP".to_owned(),
        placed_at,
    }
}

// ---------------------------------------------------------------------------
// Brokers
// ---------------------------------------------------------------------------

/// The pieces of a text between its commas.
pub open spec fn pieces(s: Seq<char>) -> Seq<Seq<char>>
    decreases s.len(),
{
    if s.len() == 0 {
        seq![seq![]]
    } else {
        let before = pieces(s.drop_last());
        if s.last() == ',' {
            before.push(seq![])
        } else {
            before.drop_last().push(before.last().push(s.last()))
        }
    }
}

/// A text without the white space at its ends.
pub open spec fn trimmed(s: Seq<char>) -> Seq<char>
    decreases s.len(),
{
    if s.len() > 0 && foreign::white_space(s[0]) {
        trimmed(s.drop_first())
    } else if s.len() > 0 && foreign::white_space(s.last()) {
        trimmed(s.drop_last())
    } else {
        s
    }
}

/// The texts without white space at their ends, those left out that are empty
/// then.
pub open spec fn kept(parts: Seq<Seq<char>>) -> Seq<Seq<char>>
    decreases parts.len(),
{
    if parts.len() == 0 {
        seq![]
    } else {
        let before = kept(parts.drop_last());
        let last = trimmed(parts.last());
        if last.len() == 0 {
            before
        } else {
            before.push(last)
        }
    }
}

/// The brokers that a comma-separated text names.
pub open spec fn brokers_of(s: Seq<char>) -> Seq<Seq<char>> {
    kept(pieces(s))
}

proof fn pieces_are_never_none(s: Seq<char>)
    ensures
        pieces(s).len() > 0,
    decreases s.len(),
{
    if s.len() > 0 {
        pieces_are_never_none(s.drop_last());
    }
}

fn push_characters(parts: &mut Vec<String>, chars: &Vec<char>, from: usize, to: usize)
    requires
        from <= to <= chars@.len(),
    ensures
        text::texts(final(parts)@) == text::texts(old(parts)@).push(
            chars@.subrange(from as int, to as int),
        ),
{
    let mut part = String::new();
    let mut i: usize = from;
    while i < to
        invariant
            from <= i <= to <= chars@.len(),
            part@ == chars@.subrange(from as int, i as int),
        decreases to - i,
    {
        part.push(chars[i]);
        proof {
            assert(chars@.subrange(from as int, i + 1) =~= chars@.subrange(
                from as int,
                i as int,
            ).push(chars@[i as int]));
        }
        i = i + 1;
    }
    push_text(parts, part);
}

/// The pieces of a text between its commas.
pub fn split_at_commas(s: &str) -> (r: Vec<String>)
    ensures
        text::texts(r@) == pieces(s@),
{
    let chars = characters(s);
    let mut r: Vec<String> = Vec::new();
    let mut from: usize = 0;
    let mut i: usize = 0;
    proof {
        assert(chars@.take(0) =~= seq![]);
        assert(pieces(chars@.take(0)).drop_last() =~= seq![]);
        assert(chars@.subrange(0, 0) =~= seq![]);
        assert(text::texts(r@) =~= seq![]);
    }
    while i < chars.len()
        invariant
            chars@ == s@,
            from <= i <= chars@.len(),
            pieces(chars@.take(i as int)).len() > 0,
            pieces(chars@.take(i as int)).last() == chars@.subrange(from as int, i as int),
            text::texts(r@) == pieces(chars@.take(i as int)).drop_last(),
        decreases chars.len() - i,
    {
        let ghost done = pieces(chars@.take(i as int));
        let ghost now = pieces(chars@.take(i + 1));
        proof {
            assert(chars@.take(i + 1).drop_last() =~= chars@.take(i as int));
            assert(chars@.take(i + 1).last() == chars@[i as int]);
        }
        if chars[i] == ',' {
            push_characters(&mut r, &chars, from, i);
            from = i + 1;
            proof {
                assert(now.drop_last() =~= done);
                assert(done.drop_last().push(done.last()) =~= done);
                assert(chars@.subrange(i + 1, i + 1) =~= seq![]);
            }
        } else {
            proof {
                assert(now.drop_last() =~= done.drop_last());
                assert(chars@.subrange(from as int, i + 1) =~= chars@.subrange(
                    from as int,
                    i as int,
                ).push(chars@[i as int]));
            }
        }
        i = i + 1;
    }
    assert(chars@.take(chars@.len() as int) =~= s@);
    push_characters(&mut r, &chars, from, i);
    assert(pieces(s@).drop_last().push(pieces(s@).last()) =~= pieces(s@));
    r
}

/// The text without the white space at its ends.
pub fn trim_text(s: &str) -> (r: String)
    ensures
        r@ == trimmed(s@),
{
    let chars = characters(s);
    let mut a: usize = 0;
    let mut b: usize = chars.len();
    assert(chars@.subrange(0, b as int) =~= s@);
    while a < b && chars[a].is_whitespace()
        invariant
            a <= b <= chars@.len(),
            trimmed(chars@.subrange(a as int, b as int)) == trimmed(s@),
        decreases b - a,
    {
        proof {
            let rest = chars@.subrange(a as int, b as int);
            assert(rest[0] == chars@[a as int]);
            assert(rest.drop_first() =~= chars@.subrange(a + 1, b as int));
        }
        a = a + 1;
    }
    while a < b && chars[b - 1].is_whitespace()
        invariant
            a <= b <= chars@.len(),
            a < b ==> !foreign::white_space(chars@[a as int]),
            trimmed(chars@.subrange(a as int, b as int)) == trimmed(s@),
        decreases b - a,
    {
        proof {
            let rest = chars@.subrange(a as int, b as int);
            assert(rest[0] == chars@[a as int]);
            assert(rest.last() == chars@[b - 1]);
            assert(rest.drop_last() =~= chars@.subrange(a as int, b - 1));
        }
        b = b - 1;
    }
    let ghost rest = chars@.subrange(a as int, b as int);
    assert(a < b ==> rest[0] == chars@[a as int] && rest.last() == chars@[b - 1]);
    assert(trimmed(s@) == rest);
    let mut r = String::new();
    let mut i: usize = a;
    while i < b
        invariant
            a <= i <= b <= chars@.len(),
            r@ == chars@.subrange(a as int, i as int),
        decreases b - i,
    {
        r.push(chars[i]);
        proof {
            assert(chars@.subrange(a as int, i + 1) =~= chars@.subrange(a as int, i as int).push(
                chars@[i as int],
            ));
        }
        i = i + 1;
    }
    r
}

/// The brokers that a comma-separated text names: white space around each is
/// dropped, and so are empty ones.
pub fn broker_list(s: &str) -> (r: Vec<String>)
    ensures
        text::texts(r@) == brokers_of(s@),
{
    let parts = split_at_commas(s);
    let ghost all = pieces(s@);
    let mut r: Vec<String> = Vec::new();
    let mut i: usize = 0;
    assert(all.take(0) =~= seq![]);
    assert(text::texts(r@) =~= kept(all.take(0)));
    while i < parts.len()
        invariant
            i <= parts.len(),
            text::texts(parts@) == all,
            text::texts(r@) == kept(all.take(i as int)),
        decreases parts.len() - i,
    {
        let broker = trim_text(parts[i].as_str());
        proof {
            assert(text::texts(parts@)[i as int] == parts@[i as int]@);
            assert(all.take(i + 1).drop_last() =~= all.take(i as int));
            assert(all.take(i + 1).last() == all[i as int]);
        }
        if !broker.as_str().is_empty() {
            push_text(&mut r, broker);
        }
        i = i + 1;
    }
    assert(all.take(i as int) =~= all);
    r
}

// ---------------------------------------------------------------------------
// Laws
// ---------------------------------------------------------------------------

/// Keys of one text go to one partition, and with at least one partition it is
/// one of them.
pub proof fn same_key_same_partition(a: Seq<char>, b: Seq<char>, partitions: i32)
    requires
        a == b,
        partitions > 0,
    ensures
        partition_of(key_hash(a), partitions) == partition_of(key_hash(b), partitions),
        0 <= partition_of(key_hash(a), partitions) < partitions,
{
}

/// The pieces of a text, joined with commas, are the text again, and none of
/// them holds a comma.
pub proof fn pieces_join_to_the_text(s: Seq<char>)
    ensures
        text::join(pieces(s), ","@) == s,
        forall|i: int| 0 <= i < pieces(s).len() ==> !(#[trigger] pieces(s)[i]).contains(','),
    decreases s.len(),
{
    reveal_strlit(",");
    if s.len() > 0 {
        let front = s.drop_last();
        let before = pieces(front);
        pieces_join_to_the_text(front);
        pieces_are_never_none(front);
        let now = pieces(s);
        if s.last() == ',' {
            assert(now.drop_last() =~= before);
            assert(text::join(now, ","@) =~= front.push(','));
        } else {
            assert(now.drop_last() =~= before.drop_last());
            assert forall|i: int| 0 <= i < now.len() implies !(#[trigger] now[i]).contains(',') by {
                if i < before.len() - 1 {
                    assert(now[i] == before[i]);
                } else {
                    assert(!before[i].contains(','));
                    let piece = before[i].push(s.last());
                    assert(now[i] == piece);
                    if piece.contains(',') {
                        let j = choose|j: int| 0 <= j < piece.len() && piece[j] == ',';
                        assert(before[i][j] == ',');
                    }
                }
            }
            assert(text::join(now, ","@) =~= text::join(before, ","@).push(s.last()));
        }
        assert(front.push(s.last()) =~= s);
    } else {
        assert(text::join(pieces(s), ","@) =~= s);
    }
}

/// No broker of the list is empty, and none starts or ends with white space.
pub proof fn brokers_are_trimmed_and_named(s: Seq<char>)
    ensures
        forall|i: int|
            0 <= i < brokers_of(s).len() ==> {
                let broker = #[trigger] brokers_of(s)[i];
                &&& broker.len() > 0
                &&& !foreign::white_space(broker[0])
                &&& !foreign::white_space(broker.last())
            },
{
    kept_are_trimmed_and_named(pieces(s));
}

proof fn kept_are_trimmed_and_named(parts: Seq<Seq<char>>)
    ensures
        forall|i: int|
            0 <= i < kept(parts).len() ==> {
                let part = #[trigger] kept(parts)[i];
                &&& part.len() > 0
                &&& !foreign::white_space(part[0])
                &&& !foreign::white_space(part.last())
            },
    decreases parts.len(),
{
    if parts.len() > 0 {
        let before = kept(parts.drop_last());
        kept_are_trimmed_and_named(parts.drop_last());
        trimmed_has_no_white_ends(parts.last());
        assert forall|i: int| 0 <= i < kept(parts).len() implies {
            let part = #[trigger] kept(parts)[i];
            &&& part.len() > 0
            &&& !foreign::white_space(part[0])
            &&& !foreign::white_space(part.last())
        } by {
            if i < before.len() {
                assert(kept(parts)[i] == before[i]);
            }
        }
    }
}

proof fn trimmed_has_no_white_ends(s: Seq<char>)
    ensures
        trimmed(s).len() > 0 ==> !foreign::white_space(trimmed(s)[0]) && !foreign::white_space(
            trimmed(s).last(),
        ),
    decreases s.len(),
{
    if s.len() > 0 && foreign::white_space(s[0]) {
        trimmed_has_no_white_ends(s.drop_first());
    } else if s.len() > 0 && foreign::white_space(s.last()) {
        trimmed_has_no_white_ends(s.drop_last());
    }
}

/// The partition of a key is the remainder of its hash, and the hash takes in
/// the whole key.
pub proof fn partition_is_the_remainder(key: Seq<char>, hash: u64, partitions: i32)
    requires
        partitions > 0,
    ensures
        partition_of(hash, partitions) as int == hash as int % partitions as int,
        key_hash(key) == DefaultHasher::spec_finish(foreign::text_writes(key)),
{
}

/// The five customers, and the five articles, each in their order.
pub proof fn customers_and_articles_go_round(place: int)
    requires
        0 <= place < 5,
    ensures
        customer(place) == seq!["c-4711"@, "c-8100"@, "c-2049"@, "c-3312"@, "c-9930"@][place],
        article(place) == seq![
            "SKU-0042"@,
            "SKU-1337"@,
            "SKU-2020"@,
            "SKU-7777"@,
            "SKU-0101"@,
        ][place],
{
}

/// All the characters of the text are white space.
pub open spec fn is_blank(s: Seq<char>) -> bool {
    forall|i: int| 0 <= i < s.len() ==> foreign::white_space(#[trigger] s[i])
}

/// Trimming takes white space off the two ends of a text and nothing else: put
/// between blank texts, a text that neither starts nor ends blank is what is
/// left; and a blank text leaves nothing.
pub proof fn trimming_takes_only_the_blank_ends(
    before: Seq<char>,
    inner: Seq<char>,
    after: Seq<char>,
)
    requires
        is_blank(before),
        is_blank(after),
        inner.len() > 0 ==> !foreign::white_space(inner[0]) && !foreign::white_space(inner.last()),
    ensures
        trimmed(before + inner + after) == inner,
    decreases before.len() + after.len(),
{
    let whole = before + inner + after;
    if before.len() > 0 {
        let rest = before.drop_first();
        assert(whole[0] == before[0]);
        assert(whole.drop_first() =~= rest + inner + after);
        assert(is_blank(rest)) by {
            assert forall|i: int| 0 <= i < rest.len() implies foreign::white_space(
                #[trigger] rest[i],
            ) by {
                assert(rest[i] == before[i + 1]);
            }
        }
        trimming_takes_only_the_blank_ends(rest, inner, after);
    } else if after.len() > 0 {
        let rest = after.drop_last();
        assert(whole.last() == after[after.len() - 1]);
        assert(is_blank(rest)) by {
            assert forall|i: int| 0 <= i < rest.len() implies foreign::white_space(
                #[trigger] rest[i],
            ) by {
                assert(rest[i] == after[i]);
            }
        }
        if inner.len() > 0 {
            assert(whole[0] == inner[0]);
            assert(whole.drop_last() =~= before + inner + rest);
            trimming_takes_only_the_blank_ends(before, inner, rest);
        } else {
            let others = after.drop_first();
            assert(whole =~= after);
            assert(whole.drop_first() =~= before + inner + others);
            assert(is_blank(others)) by {
                assert forall|i: int| 0 <= i < others.len() implies foreign::white_space(
                    #[trigger] others[i],
                ) by {
                    assert(others[i] == after[i + 1]);
                }
            }
            trimming_takes_only_the_blank_ends(before, inner, others);
        }
    } else {
        assert(whole =~= inner);
    }
}

proof fn pieces_of_both(a: Seq<char>, b: Seq<char>)
    ensures
        pieces(a.push(',') + b) == pieces(a) + pieces(b),
    decreases b.len(),
{
    let whole = a.push(',') + b;
    if b.len() == 0 {
        assert(whole =~= a.push(','));
        assert(a.push(',').drop_last() =~= a);
        assert(pieces(whole) =~= pieces(a) + pieces(b));
    } else {
        let front = b.drop_last();
        pieces_of_both(a, front);
        pieces_are_never_none(front);
        assert(whole.drop_last() =~= a.push(',') + front);
        assert(whole.last() == b.last());
        assert(pieces(whole) =~= pieces(a) + pieces(b));
    }
}

proof fn kept_of_both(a: Seq<Seq<char>>, b: Seq<Seq<char>>)
    ensures
        kept(a + b) == kept(a) + kept(b),
    decreases b.len(),
{
    if b.len() == 0 {
        assert(a + b =~= a);
        assert(kept(a + b) =~= kept(a) + kept(b));
    } else {
        kept_of_both(a, b.drop_last());
        assert((a + b).drop_last() =~= a + b.drop_last());
        assert((a + b).last() == b.last());
        assert(kept(a + b) =~= kept(a) + kept(b));
    }
}

proof fn text_without_commas_is_one_piece(s: Seq<char>)
    requires
        !s.contains(','),
    ensures
        pieces(s) == seq![s],
    decreases s.len(),
{
    if s.len() > 0 {
        let front = s.drop_last();
        if front.contains(',') {
            let i = choose|i: int| 0 <= i < front.len() && front[i] == ',';
            assert(s[i] == ',');
        }
        assert(s[s.len() - 1] != ',');
        text_without_commas_is_one_piece(front);
        assert(front.push(s.last()) =~= s);
        assert(pieces(s) =~= seq![s]);
    } else {
        assert(s =~= seq![]);
        assert(pieces(s) =~= seq![s]);
    }
}

/// The brokers of two texts with a comma between them are the brokers of the
/// one and then those of the other.
pub proof fn brokers_are_listed_in_order(a: Seq<char>, b: Seq<char>)
    ensures
        brokers_of(a + seq![','] + b) == brokers_of(a) + brokers_of(b),
{
    assert(a + seq![','] + b =~= a.push(',') + b);
    pieces_of_both(a, b);
    kept_of_both(pieces(a), pieces(b));
}

/// A text without commas names one broker, white space around it left out, and
/// a blank one names none.
pub proof fn text_without_commas_names_one_broker(
    before: Seq<char>,
    broker: Seq<char>,
    after: Seq<char>,
)
    requires
        is_blank(before),
        is_blank(after),
        !broker.contains(','),
        broker.len() > 0 ==> !foreign::white_space(broker[0]) && !foreign::white_space(
            broker.last(),
        ),
    ensures
        brokers_of(before + broker + after) == if broker.len() == 0 {
            seq![]
        } else {
            seq![broker]
        },
{
    let whole = before + broker + after;
    if whole.contains(',') {
        let i = choose|i: int| 0 <= i < whole.len() && whole[i] == ',';
        if i < before.len() {
            assert(whole[i] == before[i]);
        } else if i < before.len() + broker.len() {
            assert(broker[i - before.len()] == ',');
        } else {
            assert(whole[i] == after[i - before.len() - broker.len()]);
        }
    }
    text_without_commas_is_one_piece(whole);
    trimming_takes_only_the_blank_ends(before, broker, after);
    assert(seq![whole].drop_last() =~= seq![]);
    assert(kept(seq![]) =~= seq![]);
    assert(kept(seq![whole]) =~= if broker.len() == 0 {
        seq![]
    } else {
        seq![broker]
    });
}

/// Texts without commas that are joined with commas are taken apart again into
/// the same texts.
pub proof fn joined_texts_are_taken_apart_again(parts: Seq<Seq<char>>)
    requires
        parts.len() > 0,
        forall|i: int| 0 <= i < parts.len() ==> !(#[trigger] parts[i]).contains(','),
    ensures
        pieces(text::join(parts, ","@)) == parts,
    decreases parts.len(),
{
    reveal_strlit(",");
    let last = parts.last();
    assert(parts[parts.len() - 1] == last);
    text_without_commas_is_one_piece(last);
    if parts.len() == 1 {
        assert(seq![last] =~= parts);
    } else {
        let front = parts.drop_last();
        assert forall|i: int| 0 <= i < front.len() implies !(#[trigger] front[i]).contains(',') by {
            assert(front[i] == parts[i]);
        }
        joined_texts_are_taken_apart_again(front);
        pieces_of_both(text::join(front, ","@), last);
        assert(text::join(parts, ","@) =~= text::join(front, ","@).push(',') + last);
        assert(front + seq![last] =~= parts);
    }
}

} // verus!
