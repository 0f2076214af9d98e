//! The lexicographic order of word sequences, and sorting by such keys.

use vstd::prelude::*;

verus! {

/// Whether one sequence stands before another in lexicographic order, or is
/// the same.
pub open spec fn lex_le(a: Seq<u32>, b: Seq<u32>) -> bool
    decreases a.len(),
{
    if a.len() == 0 {
        true
    } else if b.len() == 0 {
        false
    } else if a[0] != b[0] {
        a[0] < b[0]
    } else {
        lex_le(a.skip(1), b.skip(1))
    }
}

/// Whether one sequence stands strictly before another.
pub open spec fn lex_lt(a: Seq<u32>, b: Seq<u32>) -> bool {
    lex_le(a, b) && a != b
}

/// A sequence stands before itself.
pub proof fn lex_le_reflexive(a: Seq<u32>)
    ensures
        lex_le(a, a),
    decreases a.len(),
{
    if a.len() > 0 {
        lex_le_reflexive(a.skip(1));
    }
}

/// Of two sequences one stands before the other.
pub proof fn lex_le_total(a: Seq<u32>, b: Seq<u32>)
    ensures
        lex_le(a, b) || lex_le(b, a),
    decreases a.len(),
{
    if a.len() > 0 && b.len() > 0 {
        lex_le_total(a.skip(1), b.skip(1));
    }
}

/// Two sequences that stand before each other are the same.
pub proof fn lex_le_antisymmetric(a: Seq<u32>, b: Seq<u32>)
    requires
        lex_le(a, b),
        lex_le(b, a),
    ensures
        a == b,
    decreases a.len(),
{
    if a.len() > 0 && b.len() > 0 {
        lex_le_antisymmetric(a.skip(1), b.skip(1));
        assert(a =~= seq![a[0]] + a.skip(1));
        assert(b =~= seq![b[0]] + b.skip(1));
    } else {
        assert(a =~= b);
    }
}

/// The order is transitive.
pub proof fn lex_le_transitive(a: Seq<u32>, b: Seq<u32>, c: Seq<u32>)
    requires
        lex_le(a, b),
        lex_le(b, c),
    ensures
        lex_le(a, c),
    decreases a.len(),
{
    if a.len() > 0 && b.len() > 0 && c.len() > 0 && a[0] == b[0] && b[0] == c[0] {
        lex_le_transitive(a.skip(1), b.skip(1), c.skip(1));
    }
}

/// Whether one sequence stands before another, or is the same.
pub fn words_le(a: &Vec<u32>, b: &Vec<u32>) -> (before: bool)
    ensures
        before == lex_le(a@, b@),
{
    let mut i: usize = 0;
    assert(a@.skip(0) =~= a@);
    assert(b@.skip(0) =~= b@);
    while i < a.len()
        invariant
            i <= a@.len(),
            i <= b@.len(),
            lex_le(a@.skip(i as int), b@.skip(i as int)) == lex_le(a@, b@),
        decreases a@.len() - i,
    {
        if i == b.len() {
            return false;
        }
        assert(a@.skip(i as int)[0] == a@[i as int]);
        assert(b@.skip(i as int)[0] == b@[i as int]);
        if a[i] != b[i] {
            return a[i] < b[i];
        }
        assert(a@.skip(i as int).skip(1) =~= a@.skip(i + 1));
        assert(b@.skip(i as int).skip(1) =~= b@.skip(i + 1));
        i = i + 1;
    }
    true
}

/// Whether two sequences are the same.
pub fn same_words(a: &Vec<u32>, b: &Vec<u32>) -> (same: bool)
    ensures
        same == (a@ == b@),
{
    proof {
        if lex_le(a@, b@) && lex_le(b@, a@) {
            lex_le_antisymmetric(a@, b@);
        }
        lex_le_reflexive(a@);
    }
    words_le(a, b) && words_le(b, a)
}

/// Whether positions visit every key once, in ascending order, keys that are
/// the same in the order in which they stand.
pub open spec fn ascending(positions: Seq<usize>, keys: Seq<Seq<u32>>) -> bool {
    &&& positions.len() == keys.len()
    &&& forall|i: int| 0 <= i < positions.len() ==> #[trigger] positions[i] < keys.len()
    &&& forall|i: int, j: int|
        0 <= i < j < positions.len() ==> {
            &&& #[trigger] positions[i] != #[trigger] positions[j]
            &&& lex_le(keys[positions[i] as int], keys[positions[j] as int])
            &&& keys[positions[i] as int] == keys[positions[j] as int] ==> positions[i]
                < positions[j]
        }
}

/// The key sequences that a list of vectors holds.
pub open spec fn key_list(keys: Seq<Vec<u32>>) -> Seq<Seq<u32>> {
    keys.map_values(|key: Vec<u32>| key@)
}

/// What `ascending` says of the first `count` keys.
spec fn ascending_prefix(positions: Seq<usize>, keys: Seq<Seq<u32>>, count: int) -> bool {
    ascending(positions, keys.take(count))
}

/// The positions that visit the keys in ascending order.
pub fn sorted_positions(keys: &Vec<Vec<u32>>) -> (positions: Vec<usize>)
    ensures
        ascending(positions@, key_list(keys@)),
{
    let ghost list = key_list(keys@);
    let mut positions: Vec<usize> = Vec::new();
    for i in 0..keys.len()
        invariant
            list == key_list(keys@),
            ascending_prefix(positions@, list, i as int),
    {
        let mut at: usize = 0;
        while at < positions.len() && words_le(&keys[positions[at]], &keys[i])
            invariant
                i < keys@.len(),
                at <= positions@.len(),
                list == key_list(keys@),
                ascending_prefix(positions@, list, i as int),
                forall|j: int|
                    0 <= j < at ==> lex_le(
                        list[(#[trigger] positions@[j]) as int],
                        list[i as int],
                    ),
            decreases positions@.len() - at,
        {
            at = at + 1;
        }
        let ghost before = positions@;
        let ghost shorter = list.take(i as int);
        let ghost longer = list.take(i + 1);
        positions.insert(at, i);
        proof {
            assert forall|k: int| 0 <= k < before.len() implies list[before[k] as int]
                == shorter[(#[trigger] before[k]) as int] && before[k] < i by {}
            assert forall|a: int, b: int| 0 <= a < b < positions@.len() implies {
                &&& #[trigger] positions@[a] != #[trigger] positions@[b]
                &&& lex_le(longer[positions@[a] as int], longer[positions@[b] as int])
                &&& longer[positions@[a] as int] == longer[positions@[b] as int] ==> positions@[a]
                    < positions@[b]
            } by {
                let a0 = if a < at { a } else { a - 1 };
                let b0 = if b < at { b } else { b - 1 };
                if a != at && b != at {
                    assert(positions@[a] == before[a0]);
                    assert(positions@[b] == before[b0]);
                    assert(before[a0] != before[b0]);
                } else if b == at {
                    assert(positions@[a] == before[a]);
                    assert(lex_le(list[before[a] as int], list[i as int]));
                } else {
                    assert(positions@[b] == before[b0]);
                    assert(!lex_le(list[before[at as int] as int], list[i as int]));
                    lex_le_total(list[before[at as int] as int], list[i as int]);
                    if b0 > at {
                        assert(before[at as int] != before[b0]);
                        assert(lex_le(
                            shorter[before[at as int] as int],
                            shorter[before[b0] as int],
                        ));
                        lex_le_transitive(
                            list[i as int],
                            list[before[at as int] as int],
                            list[before[b0] as int],
                        );
                    }
                    if list[i as int] == list[before[b0] as int] {
                        if b0 > at {
                            assert(false);
                        } else {
                            lex_le_reflexive(list[i as int]);
                        }
                    }
                }
            }
            assert forall|k: int| 0 <= k < positions@.len() implies #[trigger] positions@[k]
                < longer.len() by {
                if k < at {
                    assert(positions@[k] == before[k]);
                } else if k > at {
                    assert(positions@[k] == before[k - 1]);
                }
            }
        }
    }
    assert(list.take(keys@.len() as int) =~= list);
    positions
}

/// Whether every key stands strictly before the ones behind it.
pub open spec fn strictly_ascending(keys: Seq<Seq<u32>>) -> bool {
    forall|i: int, j: int|
        0 <= i < j < keys.len() ==> lex_lt(#[trigger] keys[i], #[trigger] keys[j])
}

/// The position behind the keys that stand strictly before a key.
pub open spec fn slot(keys: Seq<Seq<u32>>, key: Seq<u32>) -> int
    decreases keys.len(),
{
    if keys.len() == 0 {
        0
    } else if lex_lt(keys.last(), key) {
        keys.len() as int
    } else {
        slot(keys.drop_last(), key)
    }
}

/// Whether a key is among others.
pub open spec fn is_present(keys: Seq<Seq<u32>>, key: Seq<u32>) -> bool {
    slot(keys, key) < keys.len() && keys[slot(keys, key)] == key
}

/// The order is strict on one side where it holds on the other.
pub proof fn lex_lt_transitive(a: Seq<u32>, b: Seq<u32>, c: Seq<u32>)
    requires
        lex_le(a, b),
        lex_lt(b, c),
    ensures
        lex_lt(a, c),
{
    lex_le_transitive(a, b, c);
    if a == c {
        lex_le_antisymmetric(b, c);
    }
}

/// What stands before and behind the slot of a key.
pub proof fn slot_divides(keys: Seq<Seq<u32>>, key: Seq<u32>)
    requires
        strictly_ascending(keys),
    ensures
        0 <= slot(keys, key) <= keys.len(),
        forall|i: int| 0 <= i < slot(keys, key) ==> lex_lt(#[trigger] keys[i], key),
        forall|i: int| slot(keys, key) <= i < keys.len() ==> lex_le(key, #[trigger] keys[i]),
    decreases keys.len(),
{
    if keys.len() > 0 {
        let last = keys.len() - 1;
        if lex_lt(keys.last(), key) {
            assert forall|i: int| 0 <= i < keys.len() implies lex_lt(#[trigger] keys[i], key) by {
                if i < last {
                    assert(lex_lt(keys[i], keys[last]));
                    lex_lt_transitive(keys[i], keys[last], key);
                }
            }
        } else {
            let front = keys.drop_last();
            assert(strictly_ascending(front));
            slot_divides(front, key);
            lex_le_total(key, keys.last());
            lex_le_reflexive(key);
            assert forall|i: int| 0 <= i < slot(keys, key) implies lex_lt(
                #[trigger] keys[i],
                key,
            ) by {
                assert(front[i] == keys[i]);
            }
            assert forall|i: int| slot(keys, key) <= i < keys.len() implies lex_le(
                key,
                #[trigger] keys[i],
            ) by {
                if i < last {
                    assert(front[i] == keys[i]);
                }
            }
        }
    }
}

/// A key that occurs anywhere occurs at its slot.
pub proof fn present_where_contained(keys: Seq<Seq<u32>>, key: Seq<u32>)
    requires
        strictly_ascending(keys),
    ensures
        keys.contains(key) <==> is_present(keys, key),
{
    slot_divides(keys, key);
    if keys.contains(key) {
        let i = choose|i: int| 0 <= i < keys.len() && keys[i] == key;
        if i < slot(keys, key) {
            assert(lex_lt(keys[i], key));
        } else if i > slot(keys, key) {
            let s = slot(keys, key);
            assert(lex_le(key, keys[s]));
            assert(lex_lt(keys[s], keys[i]));
            lex_le_antisymmetric(key, keys[s]);
        }
    }
}

/// Putting a new key into its slot keeps the keys strictly ascending.
pub proof fn insert_keeps_order(keys: Seq<Seq<u32>>, key: Seq<u32>)
    requires
        strictly_ascending(keys),
        !is_present(keys, key),
    ensures
        strictly_ascending(keys.insert(slot(keys, key), key)),
{
    slot_divides(keys, key);
    let at = slot(keys, key);
    let longer = keys.insert(at, key);
    assert forall|i: int, j: int| 0 <= i < j < longer.len() implies lex_lt(
        #[trigger] longer[i],
        #[trigger] longer[j],
    ) by {
        if i == at {
            assert(longer[j] == keys[j - 1]);
            assert(lex_le(key, keys[at]));
            assert(lex_lt(key, keys[at]));
            if j - 1 > at {
                assert(lex_lt(keys[at], keys[j - 1]));
                lex_lt_transitive(key, keys[at], keys[j - 1]);
            }
        } else if j == at {
            assert(longer[i] == keys[i]);
        } else {
            let i0 = if i < at { i } else { i - 1 };
            let j0 = if j < at { j } else { j - 1 };
            assert(longer[i] == keys[i0]);
            assert(longer[j] == keys[j0]);
        }
    }
}

/// Keys in order and once each, with one more.
pub open spec fn with_key(keys: Seq<Seq<u32>>, key: Seq<u32>) -> Seq<Seq<u32>> {
    if is_present(keys, key) {
        keys
    } else {
        keys.insert(slot(keys, key), key)
    }
}

/// What a list holds once a key is taken in.
pub proof fn key_joins(keys: Seq<Seq<u32>>, own: Seq<u32>, key: Seq<u32>)
    requires
        strictly_ascending(keys),
    ensures
        strictly_ascending(with_key(keys, own)),
        with_key(keys, own).contains(key) <==> keys.contains(key) || key == own,
{
    let at = slot(keys, own);
    slot_divides(keys, own);
    present_where_contained(keys, own);
    if !is_present(keys, own) {
        let after = keys.insert(at, own);
        insert_keeps_order(keys, own);
        if keys.contains(key) {
            let i = choose|i: int| 0 <= i < keys.len() && keys[i] == key;
            assert(after[if i < at {
                i
            } else {
                i + 1
            }] == key);
        }
        assert(after[at] == own);
        if after.contains(key) && key != own {
            let i = choose|i: int| 0 <= i < after.len() && after[i] == key;
            assert(keys[if i < at {
                i
            } else {
                i - 1
            }] == key);
        }
    }
}

/// Positions in ascending order of keys visit every position.
pub proof fn every_position_is_visited(positions: Seq<usize>, keys: Seq<Seq<u32>>, k: int)
    requires
        ascending(positions, keys),
        0 <= k < keys.len(),
    ensures
        exists|i: int| 0 <= i < positions.len() && #[trigger] positions[i] == k,
{
    let visited = positions.map_values(|position: usize| position as int);
    assert(visited.no_duplicates()) by {
        assert forall|i: int, j: int|
            0 <= i < visited.len() && 0 <= j < visited.len() && i != j implies visited[i]
            != visited[j] by {
            if i < j {
                assert(positions[i] != positions[j]);
            } else {
                assert(positions[j] != positions[i]);
            }
        }
    }
    visited.unique_seq_to_set();
    let range = vstd::set_lib::set_int_range(0, keys.len() as int);
    vstd::set_lib::lemma_int_range(0, keys.len() as int);
    assert(visited.to_set().subset_of(range)) by {
        assert forall|p: int| visited.to_set().contains(p) implies range.contains(p) by {
            let i = choose|i: int| 0 <= i < visited.len() && visited[i] == p;
            assert(positions[i] < keys.len());
        }
    }
    vstd::seq_lib::seq_to_set_is_finite(visited);
    vstd::set_lib::lemma_subset_equality(visited.to_set(), range);
    assert(visited.to_set().contains(k));
    let i = choose|i: int| 0 <= i < visited.len() && visited[i] == k;
    assert(positions[i] == k);
}

/// Two strictly ascending lists that hold the same keys are the same list.
pub proof fn ascending_list_is_unique(a: Seq<Seq<u32>>, b: Seq<Seq<u32>>)
    requires
        strictly_ascending(a),
        strictly_ascending(b),
        forall|key: Seq<u32>| #[trigger] a.contains(key) <==> b.contains(key),
    ensures
        a == b,
    decreases a.len(),
{
    if a.len() == 0 {
        if b.len() > 0 {
            assert(b.contains(b[0]));
            assert(a.contains(b[0]));
        }
        assert(a =~= b);
    } else if b.len() == 0 {
        assert(a.contains(a[0]));
        assert(b.contains(a[0]));
    } else {
        let x = a.last();
        let y = b.last();
        assert(a.contains(x));
        assert(b.contains(x));
        assert(b.contains(y));
        assert(a.contains(y));
        let i = choose|i: int| 0 <= i < b.len() && b[i] == x;
        let j = choose|j: int| 0 <= j < a.len() && a[j] == y;
        if i < b.len() - 1 {
            assert(lex_lt(b[i], b[b.len() - 1]));
            if j < a.len() - 1 {
                assert(lex_lt(a[j], a[a.len() - 1]));
            }
            lex_le_reflexive(x);
            lex_le_antisymmetric(x, y);
        }
        assert(x == y);
        let front_a = a.drop_last();
        let front_b = b.drop_last();
        assert forall|key: Seq<u32>| #[trigger] front_a.contains(key) <==> front_b.contains(
            key,
        ) by {
            if front_a.contains(key) {
                let k = choose|k: int| 0 <= k < front_a.len() && front_a[k] == key;
                assert(a[k] == key);
                assert(a.contains(key));
                assert(lex_lt(a[k], a[a.len() - 1]));
                let m = choose|m: int| 0 <= m < b.len() && b[m] == key;
                assert(m < b.len() - 1);
                assert(front_b[m] == key);
            }
            if front_b.contains(key) {
                let k = choose|k: int| 0 <= k < front_b.len() && front_b[k] == key;
                assert(b[k] == key);
                assert(b.contains(key));
                assert(a.contains(key));
                assert(lex_lt(b[k], b[b.len() - 1]));
                let m = choose|m: int| 0 <= m < a.len() && a[m] == key;
                assert(m < a.len() - 1);
                assert(front_a[m] == key);
            }
        }
        ascending_list_is_unique(front_a, front_b);
        assert(a =~= front_a.push(x));
        assert(b =~= front_b.push(y));
    }
}

/// The position behind the keys that stand strictly before a key.
pub fn find_slot(keys: &Vec<Vec<u32>>, key: &Vec<u32>) -> (at: usize)
    ensures
        at == slot(key_list(keys@), key@),
        at <= keys@.len(),
{
    let ghost list = key_list(keys@);
    let mut at: usize = keys.len();
    assert(list.take(at as int) =~= list);
    while at > 0
        invariant
            at <= keys@.len(),
            list == key_list(keys@),
            slot(list.take(at as int), key@) == slot(list, key@),
        decreases at,
    {
        assert(list.take(at as int).last() == keys@[at - 1]@);
        if words_le(&keys[at - 1], key) && !same_words(&keys[at - 1], key) {
            return at;
        }
        assert(list.take(at as int).drop_last() =~= list.take(at - 1));
        at = at - 1;
    }
    at
}

/// A copy of a key.
pub fn copy_words(words: &Vec<u32>) -> (copy: Vec<u32>)
    ensures
        copy@ == words@,
{
    let mut copy: Vec<u32> = Vec::new();
    for i in 0..words.len()
        invariant
            copy@ == words@.take(i as int),
    {
        copy.push(words[i]);
    }
    assert(words@.take(words@.len() as int) =~= words@);
    copy
}

} // verus!
