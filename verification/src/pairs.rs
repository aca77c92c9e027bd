//! Ordered key/value pairs, and what is left of them when each key keeps only
//! the value written last.

use vstd::prelude::*;

verus! {

/// A key and its value, as texts.
pub type Pair = (Seq<char>, Seq<char>);

/// The texts of a list of pairs.
pub open spec fn pair_texts(v: Seq<(String, String)>) -> Seq<Pair> {
    Seq::new(v.len(), |i: int| (v[i].0@, v[i].1@))
}

/// The keys of a list of pairs, in order.
pub open spec fn keys(s: Seq<Pair>) -> Seq<Seq<char>> {
    Seq::new(s.len(), |i: int| s[i].0)
}

/// Some pair has the key `k`.
pub open spec fn holds_key(s: Seq<Pair>, k: Seq<char>) -> bool {
    exists|i: int| 0 <= i < s.len() && #[trigger] s[i].0 == k
}

/// No key occurs twice.
pub open spec fn unique_keys(s: Seq<Pair>) -> bool {
    forall|i: int, j: int| 0 <= i < j < s.len() ==> #[trigger] s[i].0 != #[trigger] s[j].0
}

/// The pairs with `p` in the place of every pair that has its key.
pub open spec fn replaced(s: Seq<Pair>, p: Pair) -> Seq<Pair> {
    Seq::new(
        s.len(),
        |i: int|
            if s[i].0 == p.0 {
                p
            } else {
                s[i]
            },
    )
}

/// The pairs with `p` written into them: in the place of the pair with the
/// same key where there is one, at the end otherwise.
pub open spec fn put(s: Seq<Pair>, p: Pair) -> Seq<Pair> {
    if holds_key(s, p.0) {
        replaced(s, p)
    } else {
        s.push(p)
    }
}

/// The pairs written one after another.
pub open spec fn deduped(s: Seq<Pair>) -> Seq<Pair>
    decreases s.len(),
{
    if s.len() == 0 {
        seq![]
    } else {
        put(deduped(s.drop_last()), s.last())
    }
}

/// The value of the last pair with the key `k`.
pub open spec fn last_value(s: Seq<Pair>, k: Seq<char>) -> Option<Seq<char>>
    decreases s.len(),
{
    if s.len() == 0 {
        None
    } else if s.last().0 == k {
        Some(s.last().1)
    } else {
        last_value(s.drop_last(), k)
    }
}

/// The keys in the order of their first occurrence, each once.
pub open spec fn distinct(ks: Seq<Seq<char>>) -> Seq<Seq<char>>
    decreases ks.len(),
{
    if ks.len() == 0 {
        seq![]
    } else {
        let before = distinct(ks.drop_last());
        if before.contains(ks.last()) {
            before
        } else {
            before.push(ks.last())
        }
    }
}

/// A pair of owned texts.
pub fn pair(key: &str, value: &str) -> (r: (String, String))
    ensures
        r.0@ == key@,
        r.1@ == value@,
{
    (key.to_owned(), value.to_owned())
}

/// Append one pair.
pub fn push_pair(v: &mut Vec<(String, String)>, key: &str, value: &str)
    ensures
        pair_texts(final(v)@) == pair_texts(old(v)@).push((key@, value@)),
{
    let ghost before = v@;
    v.push(pair(key, value));
    assert(pair_texts(v@) =~= pair_texts(before).push((key@, value@)));
}

/// Append copies of all the pairs of `other`.
pub fn extend_pairs(v: &mut Vec<(String, String)>, other: &Vec<(String, String)>)
    ensures
        pair_texts(final(v)@) == pair_texts(old(v)@) + pair_texts(other@),
{
    let ghost before = pair_texts(v@);
    let ghost added = pair_texts(other@);
    let mut i: usize = 0;
    while i < other.len()
        invariant
            i <= other.len(),
            added == pair_texts(other@),
            pair_texts(v@) == before + added.take(i as int),
        decreases other.len() - i,
    {
        push_pair(v, other[i].0.as_str(), other[i].1.as_str());
        assert(added.take(i + 1) =~= added.take(i as int).push(added[i as int]));
        assert(pair_texts(v@) =~= before + added.take(i + 1));
        i = i + 1;
    }
    assert(added.take(added.len() as int) =~= added);
}

/// Copies of the pairs.
pub fn clone_pairs(v: &Vec<(String, String)>) -> (r: Vec<(String, String)>)
    ensures
        pair_texts(r@) == pair_texts(v@),
{
    let mut r: Vec<(String, String)> = Vec::new();
    extend_pairs(&mut r, v);
    assert(pair_texts(r@) =~= pair_texts(v@));
    r
}

fn put_pair(v: &mut Vec<(String, String)>, key: &String, value: &String)
    requires
        unique_keys(pair_texts(old(v)@)),
    ensures
        pair_texts(final(v)@) == put(pair_texts(old(v)@), (key@, value@)),
        unique_keys(pair_texts(final(v)@)),
{
    let ghost before = pair_texts(v@);
    let mut i: usize = 0;
    while i < v.len()
        invariant
            i <= v.len(),
            before == pair_texts(old(v)@),
            unique_keys(before),
            pair_texts(v@) == before,
            forall|j: int| 0 <= j < i ==> #[trigger] before[j].0 != key@,
        decreases v.len() - i,
    {
        assert(before[i as int].0 == v@[i as int].0@);
        if v[i].0 == *key {
            v.set(i, (key.clone(), value.clone()));
            assert(pair_texts(v@) =~= put(before, (key@, value@)));
            return;
        }
        i = i + 1;
    }
    v.push((key.clone(), value.clone()));
    assert(pair_texts(v@) =~= before.push((key@, value@)));
}

/// The pairs with repeated keys resolved: the value written last wins and the
/// key keeps the place where it was first written.
pub fn dedup_pairs(v: &Vec<(String, String)>) -> (r: Vec<(String, String)>)
    ensures
        pair_texts(r@) == deduped(pair_texts(v@)),
{
    let ghost all = pair_texts(v@);
    let mut r: Vec<(String, String)> = Vec::new();
    let mut i: usize = 0;
    assert(pair_texts(r@) =~= deduped(all.take(0)));
    while i < v.len()
        invariant
            i <= v.len(),
            all == pair_texts(v@),
            pair_texts(r@) == deduped(all.take(i as int)),
            unique_keys(pair_texts(r@)),
        decreases v.len() - i,
    {
        put_pair(&mut r, &v[i].0, &v[i].1);
        assert(all.take(i + 1).drop_last() =~= all.take(i as int));
        i = i + 1;
    }
    assert(all.take(all.len() as int) =~= all);
    r
}

/// Resolving repeated keys leaves every key once.
pub proof fn deduped_keys_are_unique(s: Seq<Pair>)
    ensures
        unique_keys(deduped(s)),
    decreases s.len(),
{
    if s.len() > 0 {
        deduped_keys_are_unique(s.drop_last());
    }
}

/// The last write of a key wins, and no key appears or disappears: looking a
/// key up gives the same before and after repeated keys are resolved.
pub proof fn last_write_wins(s: Seq<Pair>, k: Seq<char>)
    ensures
        last_value(deduped(s), k) == last_value(s, k),
    decreases s.len(),
{
    if s.len() > 0 {
        last_write_wins(s.drop_last(), k);
        deduped_keys_are_unique(s.drop_last());
        last_value_of_put(deduped(s.drop_last()), s.last(), k);
    }
}

proof fn last_value_of_put(s: Seq<Pair>, p: Pair, k: Seq<char>)
    ensures
        last_value(put(s, p), k) == if p.0 == k {
            Some(p.1)
        } else {
            last_value(s, k)
        },
    decreases s.len(),
{
    if holds_key(s, p.0) {
        last_value_of_replaced(s, p, k);
        if p.0 == k {
            value_is_found(s, k);
        }
    } else {
        assert(s.push(p).drop_last() =~= s);
    }
}

/// A key has a value exactly when some pair has the key.
pub proof fn value_is_found(s: Seq<Pair>, k: Seq<char>)
    ensures
        holds_key(s, k) <==> last_value(s, k) is Some,
    decreases s.len(),
{
    if s.len() > 0 {
        value_is_found(s.drop_last(), k);
        if holds_key(s.drop_last(), k) {
            let i = choose|i: int| 0 <= i < s.len() - 1 && #[trigger] s.drop_last()[i].0 == k;
            assert(s[i].0 == k);
        }
        if holds_key(s, k) && s.last().0 != k {
            let i = choose|i: int| 0 <= i < s.len() && #[trigger] s[i].0 == k;
            assert(s.drop_last()[i].0 == k);
        }
        assert(s[s.len() - 1] == s.last());
    }
}

proof fn last_value_of_replaced(s: Seq<Pair>, p: Pair, k: Seq<char>)
    ensures
        last_value(replaced(s, p), k) == if p.0 == k && last_value(s, k) is Some {
            Some(p.1)
        } else {
            last_value(s, k)
        },
    decreases s.len(),
{
    if s.len() > 0 {
        last_value_of_replaced(s.drop_last(), p, k);
        assert(replaced(s, p).drop_last() =~= replaced(s.drop_last(), p));
    }
}

/// Resolving repeated keys keeps the keys in the order in which they were
/// first written.
pub proof fn keys_keep_their_first_place(s: Seq<Pair>)
    ensures
        keys(deduped(s)) == distinct(keys(s)),
    decreases s.len(),
{
    if s.len() > 0 {
        let before = deduped(s.drop_last());
        keys_keep_their_first_place(s.drop_last());
        assert(keys(s).drop_last() =~= keys(s.drop_last()));
        assert(keys(s).last() == s.last().0);
        if holds_key(before, s.last().0) {
            let i = choose|i: int| 0 <= i < before.len() && #[trigger] before[i].0 == s.last().0;
            assert(keys(before)[i] == s.last().0);
            assert(keys(deduped(s)) =~= keys(before));
        } else {
            if keys(before).contains(s.last().0) {
                let i = keys(before).index_of(s.last().0);
                assert(before[i].0 == s.last().0);
            }
            assert(keys(deduped(s)) =~= keys(before).push(s.last().0));
        }
    } else {
        assert(keys(deduped(s)) =~= distinct(keys(s)));
    }
}

/// Of two lists of pairs written one after the other, the second has the last
/// word.
pub proof fn later_pairs_win(a: Seq<Pair>, b: Seq<Pair>, k: Seq<char>)
    ensures
        last_value(a + b, k) == match last_value(b, k) {
            Some(v) => Some(v),
            None => last_value(a, k),
        },
    decreases b.len(),
{
    if b.len() == 0 {
        assert(a + b =~= a);
    } else {
        assert((a + b).drop_last() =~= a + b.drop_last());
        later_pairs_win(a, b.drop_last(), k);
    }
}

/// The texts of a list of pairs stand in its order, key first.
pub proof fn pair_texts_keep_their_order(v: Seq<(String, String)>)
    ensures
        pair_texts(v).len() == v.len(),
        forall|i: int| 0 <= i < v.len() ==> (#[trigger] pair_texts(v)[i]).0 == v[i].0@,
        forall|i: int| 0 <= i < v.len() ==> (#[trigger] pair_texts(v)[i]).1 == v[i].1@,
{
}

/// Resolving repeated keys, one pair more replaces the value of a key that was
/// written before, where that stands, and comes last otherwise.
pub proof fn one_pair_more_replaces_or_comes_last(s: Seq<Pair>, p: Pair)
    ensures
        deduped(seq![]).len() == 0,
        ({
            let before = deduped(s);
            let now = deduped(s.push(p));
            &&& forall|i: int|
                0 <= i < before.len() ==> #[trigger] now[i] == if before[i].0 == p.0 {
                    p
                } else {
                    before[i]
                }
            &&& if exists|i: int| 0 <= i < s.len() && #[trigger] s[i].0 == p.0 {
                now.len() == before.len()
            } else {
                now.len() == before.len() + 1 && now.last() == p
            }
        }),
{
    assert(s.push(p).drop_last() =~= s);
    last_write_wins(s, p.0);
    value_is_found(s, p.0);
    value_is_found(deduped(s), p.0);
    let before = deduped(s);
    let now = deduped(s.push(p));
    if !holds_key(before, p.0) {
        assert forall|i: int| 0 <= i < before.len() implies #[trigger] now[i] == if before[i].0
            == p.0 {
            p
        } else {
            before[i]
        } by {
            assert(before[i].0 != p.0);
        }
    }
}

/// The value of a key is that of the pair behind which no other pair has the
/// key.
pub proof fn last_value_stands_last(s: Seq<Pair>, k: Seq<char>, i: int)
    requires
        0 <= i < s.len(),
        s[i].0 == k,
        forall|j: int| i < j < s.len() ==> #[trigger] s[j].0 != k,
    ensures
        last_value(s, k) == Some(s[i].1),
    decreases s.len(),
{
    if i < s.len() - 1 {
        assert(s[s.len() - 1].0 != k);
        let front = s.drop_last();
        assert(front[i] == s[i]);
        assert forall|j: int| i < j < front.len() implies #[trigger] front[j].0 != k by {
            assert(front[j] == s[j]);
        }
        last_value_stands_last(front, k, i);
    }
}

} // verus!
