//! Ordered association lists keyed by text: the mathematical model shared by
//! every keyed collection of the library.
//!
//! A list is a sequence of `(key, value)` pairs in which no key occurs twice.
//! Looking a key up finds its pair; putting a key replaces the value in place
//! when the key is present and appends a pair otherwise.

use vstd::prelude::*;

verus! {

/// Whether some pair of `pairs` has the key `key`.
pub open spec fn holds<V>(pairs: Seq<(Seq<char>, V)>, key: Seq<char>) -> bool {
    exists|i: int| 0 <= i < pairs.len() && (#[trigger] pairs[i]).0 == key
}

/// The position of a pair with the key `key`, where there is one.
pub open spec fn index_of<V>(pairs: Seq<(Seq<char>, V)>, key: Seq<char>) -> int {
    choose|i: int| 0 <= i < pairs.len() && (#[trigger] pairs[i]).0 == key
}

/// The value stored under `key`, if any.
pub open spec fn find<V>(pairs: Seq<(Seq<char>, V)>, key: Seq<char>) -> Option<V> {
    if holds(pairs, key) {
        Some(pairs[index_of(pairs, key)].1)
    } else {
        None
    }
}

/// `pairs` with `value` stored under `key`: in place of the old value when
/// the key is present, at the end otherwise.
pub open spec fn put<V>(pairs: Seq<(Seq<char>, V)>, key: Seq<char>, value: V) -> Seq<
    (Seq<char>, V),
> {
    if holds(pairs, key) {
        pairs.update(index_of(pairs, key), (key, value))
    } else {
        pairs.push((key, value))
    }
}

/// No key occurs in two pairs.
pub open spec fn distinct<V>(pairs: Seq<(Seq<char>, V)>) -> bool {
    forall|i: int, j: int|
        0 <= i < j < pairs.len() ==> (#[trigger] pairs[i]).0 != (#[trigger] pairs[j]).0
}

/// The keys of `pairs`, in order.
pub open spec fn keys<V>(pairs: Seq<(Seq<char>, V)>) -> Seq<Seq<char>> {
    Seq::new(pairs.len(), |i: int| pairs[i].0)
}

/// In a list without repeated keys, the pair at a position is the one that
/// its key finds.
pub proof fn lemma_find_at<V>(pairs: Seq<(Seq<char>, V)>, i: int)
    requires
        distinct(pairs),
        0 <= i < pairs.len(),
    ensures
        holds(pairs, pairs[i].0),
        index_of(pairs, pairs[i].0) == i,
        find(pairs, pairs[i].0) == Some(pairs[i].1),
{
    let key = pairs[i].0;
    assert(holds(pairs, key));
    let j = index_of(pairs, key);
    assert(0 <= j < pairs.len() && pairs[j].0 == key);
    if j < i {
        assert(pairs[j].0 != pairs[i].0);
    } else if i < j {
        assert(pairs[i].0 != pairs[j].0);
    }
}

/// A key that no pair carries finds nothing.
pub proof fn lemma_find_none<V>(pairs: Seq<(Seq<char>, V)>, key: Seq<char>)
    requires
        forall|i: int| 0 <= i < pairs.len() ==> (#[trigger] pairs[i]).0 != key,
    ensures
        !holds(pairs, key),
        find(pairs, key).is_none(),
{
}

/// Putting a key keeps the keys distinct.
pub proof fn lemma_put_distinct<V>(pairs: Seq<(Seq<char>, V)>, key: Seq<char>, value: V)
    requires
        distinct(pairs),
    ensures
        distinct(put(pairs, key, value)),
{
    let after = put(pairs, key, value);
    if holds(pairs, key) {
        let at = index_of(pairs, key);
        assert forall|i: int, j: int| 0 <= i < j < after.len() implies (#[trigger] after[i]).0 != (
        #[trigger] after[j]).0 by {
            assert(after[i].0 == pairs[i].0);
            assert(after[j].0 == pairs[j].0);
        }
    } else {
        assert forall|i: int, j: int| 0 <= i < j < after.len() implies (#[trigger] after[i]).0 != (
        #[trigger] after[j]).0 by {
            if j < pairs.len() {
                assert(after[i] == pairs[i]);
                assert(after[j] == pairs[j]);
            } else {
                assert(after[i] == pairs[i]);
                assert(after[j].0 == key);
            }
        }
    }
}

/// After a put, the key that was put finds the new value and every other
/// key finds what it found before.
pub proof fn lemma_find_put<V>(
    pairs: Seq<(Seq<char>, V)>,
    key: Seq<char>,
    value: V,
    other: Seq<char>,
)
    requires
        distinct(pairs),
    ensures
        find(put(pairs, key, value), other) == if other == key {
            Some(value)
        } else {
            find(pairs, other)
        },
{
    let after = put(pairs, key, value);
    lemma_put_distinct(pairs, key, value);
    if holds(pairs, key) {
        let at = index_of(pairs, key);
        assert(after[at] == (key, value));
        if other == key {
            lemma_find_at(after, at);
        } else if holds(pairs, other) {
            let o = index_of(pairs, other);
            assert(after[o] == pairs[o]);
            lemma_find_at(after, o);
        } else {
            assert forall|i: int| 0 <= i < after.len() implies (#[trigger] after[i]).0
                != other by {
                if i != at {
                    assert(after[i] == pairs[i]);
                }
            }
            lemma_find_none(after, other);
        }
    } else {
        let at = pairs.len() as int;
        assert(after[at] == (key, value));
        if other == key {
            lemma_find_at(after, at);
        } else if holds(pairs, other) {
            let o = index_of(pairs, other);
            assert(after[o] == pairs[o]);
            lemma_find_at(after, o);
        } else {
            assert forall|i: int| 0 <= i < after.len() implies (#[trigger] after[i]).0
                != other by {
                if i != at {
                    assert(after[i] == pairs[i]);
                }
            }
            lemma_find_none(after, other);
        }
    }
}

/// `pairs` with every value replaced by its image under `f`.
pub open spec fn map_values<A, B>(pairs: Seq<(Seq<char>, A)>, f: spec_fn(A) -> B) -> Seq<
    (Seq<char>, B),
> {
    Seq::new(pairs.len(), |i: int| (pairs[i].0, f(pairs[i].1)))
}

/// Replacing the values leaves the keys where they are: lookups and puts
/// commute with it.
pub proof fn lemma_map_values<A, B>(
    pairs: Seq<(Seq<char>, A)>,
    f: spec_fn(A) -> B,
    key: Seq<char>,
)
    requires
        distinct(pairs),
    ensures
        distinct(map_values(pairs, f)),
        holds(map_values(pairs, f), key) == holds(pairs, key),
        find(map_values(pairs, f), key) == match find(pairs, key) {
            Some(a) => Some(f(a)),
            None => None,
        },
        forall|value: A| #[trigger]
            put(map_values(pairs, f), key, f(value)) == map_values(put(pairs, key, value), f),
{
    let mapped = map_values(pairs, f);
    assert forall|i: int, j: int| 0 <= i < j < mapped.len() implies (#[trigger] mapped[i]).0 != (
    #[trigger] mapped[j]).0 by {
        assert(pairs[i].0 != pairs[j].0);
    }
    if holds(pairs, key) {
        let at = index_of(pairs, key);
        assert(mapped[at].0 == key);
        lemma_find_at(mapped, at);
        assert forall|value: A| #[trigger]
            put(mapped, key, f(value)) == map_values(put(pairs, key, value), f) by {
            assert(put(mapped, key, f(value)) =~= map_values(put(pairs, key, value), f));
        }
    } else {
        assert forall|i: int| 0 <= i < mapped.len() implies (#[trigger] mapped[i]).0 != key by {
            assert(pairs[i].0 != key);
        }
        lemma_find_none(mapped, key);
        assert forall|value: A| #[trigger]
            put(mapped, key, f(value)) == map_values(put(pairs, key, value), f) by {
            assert(put(mapped, key, f(value)) =~= map_values(put(pairs, key, value), f));
        }
    }
}

/// A list with one more pair at its end holds the keys that it held, and
/// the key of that pair.
pub proof fn lemma_holds_push<V>(pairs: Seq<(Seq<char>, V)>, pair: (Seq<char>, V), key: Seq<char>)
    ensures
        holds(pairs.push(pair), key) == (holds(pairs, key) || pair.0 == key),
{
    let longer = pairs.push(pair);
    if holds(pairs, key) {
        let at = index_of(pairs, key);
        assert(longer[at].0 == key);
    }
    if pair.0 == key {
        assert(longer[pairs.len() as int].0 == key);
    }
    if holds(longer, key) {
        let at = index_of(longer, key);
        if at < pairs.len() {
            assert(pairs[at].0 == key);
        }
    }
}

} // verus!
