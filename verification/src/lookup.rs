//! First-match lookup in a sequence of identity keys.
//!
//! Entities are matched by identity key. Within one list the keys are meant to be
//! unique; where they are not, the first entity that carries a key is the one found.

use vstd::prelude::*;

verus! {

/// The position of the first occurrence of a key, if it occurs at all.
pub open spec fn first_index<K>(keys: Seq<K>, key: K) -> Option<int>
    decreases keys.len(),
{
    if keys.len() == 0 {
        None
    } else if keys[0] == key {
        Some(0)
    } else {
        match first_index(keys.drop_first(), key) {
            Some(i) => Some(i + 1),
            None => None,
        }
    }
}

/// Whether no key occurs twice.
pub open spec fn distinct<K>(keys: Seq<K>) -> bool {
    forall|i: int, j: int| 0 <= i < j < keys.len() ==> keys[i] != keys[j]
}

/// What [`first_index`] finds: the least position that holds the key, and nothing
/// exactly when no position holds it.
pub proof fn lemma_first_index<K>(keys: Seq<K>, key: K)
    ensures
        match first_index(keys, key) {
            Some(i) => {
                &&& 0 <= i < keys.len()
                &&& keys[i] == key
                &&& forall|j: int| 0 <= j < i ==> keys[j] != key
            },
            None => forall|j: int| 0 <= j < keys.len() ==> keys[j] != key,
        },
        first_index(keys, key).is_some() <==> keys.contains(key),
    decreases keys.len(),
{
    if keys.len() > 0 && keys[0] != key {
        let rest = keys.drop_first();
        lemma_first_index(rest, key);
        match first_index(rest, key) {
            Some(i) => {
                assert(keys[i + 1] == rest[i]);
                assert forall|j: int| 0 <= j < i + 1 implies keys[j] != key by {
                    if j > 0 {
                        assert(keys[j] == rest[j - 1]);
                    }
                }
            },
            None => {
                assert forall|j: int| 0 <= j < keys.len() implies keys[j] != key by {
                    if j > 0 {
                        assert(keys[j] == rest[j - 1]);
                    }
                }
            },
        }
    }
}

/// Among distinct keys, each key is found at its own position.
pub proof fn lemma_first_index_distinct<K>(keys: Seq<K>, i: int)
    requires
        distinct(keys),
        0 <= i < keys.len(),
    ensures
        first_index(keys, keys[i]) == Some(i),
{
    lemma_first_index(keys, keys[i]);
}

/// What the items of a sequence give rise to, one after the other: the concatenation,
/// in the order of the items, of what `emit` gives for each item.
pub open spec fn concat_map<A, T>(items: Seq<A>, emit: spec_fn(A) -> Seq<T>) -> Seq<T>
    decreases items.len(),
{
    if items.len() == 0 {
        Seq::empty()
    } else {
        concat_map(items.drop_last(), emit) + emit(items.last())
    }
}

/// One more item adds what it gives rise to at the end.
pub proof fn lemma_concat_map_push<A, T>(items: Seq<A>, item: A, emit: spec_fn(A) -> Seq<T>)
    ensures
        concat_map(items.push(item), emit) == concat_map(items, emit) + emit(item),
{
    assert(items.push(item).drop_last() =~= items);
}

/// The items up to and including position `i` give rise to what the items before `i`
/// give rise to, followed by what the item at `i` gives rise to.
pub proof fn lemma_concat_map_take<A, T>(items: Seq<A>, i: int, emit: spec_fn(A) -> Seq<T>)
    requires
        0 <= i < items.len(),
    ensures
        concat_map(items.take(i + 1), emit) == concat_map(items.take(i), emit) + emit(items[i]),
{
    assert(items.take(i + 1).drop_last() =~= items.take(i));
}

/// What two sequences give rise to, one after the other, is what their concatenation
/// gives rise to.
pub proof fn lemma_concat_map_add<A, T>(first: Seq<A>, second: Seq<A>, emit: spec_fn(A) -> Seq<T>)
    ensures
        concat_map(first + second, emit) == concat_map(first, emit) + concat_map(second, emit),
    decreases second.len(),
{
    if second.len() == 0 {
        assert(first + second =~= first);
        assert(concat_map(first, emit) + concat_map(second, emit) =~= concat_map(first, emit));
    } else {
        lemma_concat_map_add(first, second.drop_last(), emit);
        assert((first + second).drop_last() =~= first + second.drop_last());
        assert((first + second).last() == second.last());
        assert(concat_map(first + second, emit) =~= concat_map(first, emit) + concat_map(
            second,
            emit,
        ));
    }
}

/// Whatever is given rise to comes from one of the items, and whatever an item gives
/// rise to is there.
pub proof fn lemma_concat_map_contains<A, T>(items: Seq<A>, emit: spec_fn(A) -> Seq<T>, x: T)
    ensures
        concat_map(items, emit).contains(x) <==> exists|i: int|
            0 <= i < items.len() && #[trigger] emit(items[i]).contains(x),
    decreases items.len(),
{
    if items.len() == 0 {
        assert(!concat_map(items, emit).contains(x));
    } else {
        let before = items.drop_last();
        let all = concat_map(items, emit);
        lemma_concat_map_contains(before, emit, x);
        if all.contains(x) {
            let k = choose|k: int| 0 <= k < all.len() && all[k] == x;
            if k < concat_map(before, emit).len() {
                assert(concat_map(before, emit)[k] == x);
                assert(concat_map(before, emit).contains(x));
                let i = choose|i: int|
                    0 <= i < before.len() && #[trigger] emit(before[i]).contains(x);
                assert(items[i] == before[i]);
            } else {
                assert(emit(items.last())[k - concat_map(before, emit).len()] == x);
                assert(emit(items[items.len() - 1]).contains(x));
            }
        }
        if exists|i: int| 0 <= i < items.len() && #[trigger] emit(items[i]).contains(x) {
            let i = choose|i: int| 0 <= i < items.len() && #[trigger] emit(items[i]).contains(x);
            if i < before.len() {
                assert(before[i] == items[i]);
                assert(concat_map(before, emit).contains(x));
                let k = choose|k: int|
                    0 <= k < concat_map(before, emit).len() && concat_map(before, emit)[k] == x;
                assert(all[k] == x);
            } else {
                let last = emit(items.last());
                let k = choose|k: int| 0 <= k < last.len() && last[k] == x;
                assert(all[concat_map(before, emit).len() + k] == x);
            }
        }
    }
}

/// Where no item gives rise to anything, nothing is given rise to.
pub proof fn lemma_concat_map_empty<A, T>(items: Seq<A>, emit: spec_fn(A) -> Seq<T>)
    requires
        forall|i: int| 0 <= i < items.len() ==> (#[trigger] emit(items[i])).len() == 0,
    ensures
        concat_map(items, emit) == Seq::<T>::empty(),
    decreases items.len(),
{
    if items.len() > 0 {
        let before = items.drop_last();
        assert forall|i: int| 0 <= i < before.len() implies (#[trigger] emit(before[i])).len()
            == 0 by {
            assert(before[i] == items[i]);
        }
        lemma_concat_map_empty(before, emit);
        assert(emit(items[items.len() - 1]).len() == 0);
        assert(concat_map(items, emit) =~= Seq::<T>::empty());
    }
}

/// Where every item gives rise to exactly one thing, what the items give rise to is
/// the sequence of those things.
pub proof fn lemma_concat_map_singletons<A, T>(
    items: Seq<A>,
    emit: spec_fn(A) -> Seq<T>,
    each: spec_fn(A) -> T,
)
    requires
        forall|i: int| 0 <= i < items.len() ==> #[trigger] emit(items[i]) == seq![each(items[i])],
    ensures
        concat_map(items, emit) == items.map_values(each),
    decreases items.len(),
{
    if items.len() == 0 {
        assert(concat_map(items, emit) =~= items.map_values(each));
    } else {
        let before = items.drop_last();
        assert forall|i: int| 0 <= i < before.len() implies #[trigger] emit(before[i]) == seq![
            each(before[i]),
        ] by {
            assert(before[i] == items[i]);
        }
        lemma_concat_map_singletons(before, emit, each);
        assert(emit(items[items.len() - 1]) == seq![each(items[items.len() - 1])]);
        assert(concat_map(items, emit) =~= items.map_values(each));
    }
}

/// What `convert` makes of the items of a sequence, in the same order, as long as it
/// makes something of every item. The first item, in the order of the sequence, of
/// which it makes a failure gives the failure of the whole.
pub open spec fn try_map<A, B, E>(
    items: Seq<A>,
    convert: spec_fn(A) -> Result<B,
    E>,
) -> Result<Seq<B>, E>
    decreases items.len(),
{
    if items.len() == 0 {
        Ok(Seq::empty())
    } else {
        match try_map(items.drop_last(), convert) {
            Err(error) => Err(error),
            Ok(before) => match convert(items.last()) {
                Err(error) => Err(error),
                Ok(converted) => Ok(before.push(converted)),
            },
        }
    }
}

/// What is made of the items up to and including position `i`, from what is made of
/// the items before `i` and of the item at `i`.
pub proof fn lemma_try_map_take<A, B, E>(
    items: Seq<A>,
    i: int,
    convert: spec_fn(A) -> Result<B, E>,
)
    requires
        0 <= i < items.len(),
    ensures
        try_map(items.take(i + 1), convert) == match try_map(items.take(i), convert) {
            Err(error) => Err(error),
            Ok(before) => match convert(items[i]) {
                Err(error) => Err(error),
                Ok(converted) => Ok(before.push(converted)),
            },
        },
{
    assert(items.take(i + 1).drop_last() =~= items.take(i));
}

/// A failure on a beginning of the sequence is the failure of the whole.
pub proof fn lemma_try_map_fails<A, B, E>(
    items: Seq<A>,
    i: int,
    convert: spec_fn(A) -> Result<B, E>,
)
    requires
        0 <= i <= items.len(),
        try_map(items.take(i), convert) is Err,
    ensures
        try_map(items, convert) == try_map(items.take(i), convert),
    decreases items.len() - i,
{
    if i == items.len() {
        assert(items.take(i) =~= items);
    } else {
        lemma_try_map_take(items, i, convert);
        lemma_try_map_fails(items, i + 1, convert);
    }
}

} // verus!
