//! What holds of every map, whatever the key type and the values.
//!
//! The statements about all keys at once rest on the numbering of the key
//! type being a bijection, which `numbered` says and which is proved for
//! each key type of this library.

use crate::internal::{lemma_ordinal_injective, numbered, Internal};
use crate::map::{entries, EnumMap};
use vstd::prelude::*;
use vstd::std_specs::cmp::PartialEqSpec;

verus! {

/// A map built from a function holds, for every key, a value that the
/// function returns for that key.
pub proof fn lemma_built_value<K: Internal, V, F: FnMut(K) -> V>(map: EnumMap<K, V>, f: F, key: K)
    requires
        numbered::<K>(),
        map.built_by(f),
    ensures
        f.ensures((key,), map.spec_index(key)),
{
    assert(K::nth(key.ordinal()) == key);
    assert(f.ensures((K::nth(key.ordinal()),), map@[key.ordinal() as int]));
}

/// Two maps built from one function, which returns one value for each key,
/// hold the same values.
pub proof fn lemma_built_alike<K: Internal, V, F: FnMut(K) -> V>(
    a: EnumMap<K, V>,
    b: EnumMap<K, V>,
    f: F,
)
    requires
        a.built_by(f),
        b.built_by(f),
        forall|key: K, x: V, y: V| f.ensures((key,), x) && f.ensures((key,), y) ==> x == y,
    ensures
        a@ == b@,
{
    a.lemma_view_len();
    b.lemma_view_len();
    assert forall|i: int| 0 <= i < K::N implies a@[i] == b@[i] by {
        assert(f.ensures((K::nth(i as nat),), a@[i]));
        assert(f.ensures((K::nth(i as nat),), b@[i]));
    }
    assert(a@ =~= b@);
}

/// Maps that hold the same values are equal by `==`, where every value is
/// equal to itself by `==`.
pub proof fn lemma_same_values_equal<K: Internal, V: PartialEq>(a: EnumMap<K, V>, b: EnumMap<K, V>)
    requires
        a@ == b@,
        forall|value: V| #[trigger] value.eq_spec(&value),
    ensures
        a.eq_spec(&b),
{
}

/// The pairs of a map are as many as there are keys, and the pair in place
/// `i` is the key with the number `i` and the value in slot `i`: the keys
/// come in the order of their numbers.
pub proof fn lemma_entries_in_order<K: Internal, V>(map: EnumMap<K, V>, i: int)
    requires
        numbered::<K>(),
        0 <= i < K::N,
    ensures
        entries::<K, V>(map@).len() == K::N,
        entries::<K, V>(map@)[i].0 == K::nth(i as nat),
        entries::<K, V>(map@)[i].0.ordinal() == i,
        entries::<K, V>(map@)[i].1 == map@[i],
{
    map.lemma_view_len();
}

/// Every key has exactly one pair among the pairs of a map: the one in the
/// place of its number, which holds the map's value for the key.
pub proof fn lemma_entry_of_key<K: Internal, V>(map: EnumMap<K, V>, key: K, i: int)
    requires
        numbered::<K>(),
        0 <= i < K::N,
    ensures
        entries::<K, V>(map@)[key.ordinal() as int] == (key, map.spec_index(key)),
        entries::<K, V>(map@)[i].0 == key ==> i == key.ordinal(),
{
    map.lemma_view_len();
    assert(K::nth(key.ordinal()) == key);
}

/// Read from the back, the pairs of a map come with the numbers of their keys
/// falling from `N - 1` to zero.
pub proof fn lemma_entries_reversed<K: Internal, V>(map: EnumMap<K, V>, i: int)
    requires
        numbered::<K>(),
        0 <= i < K::N,
    ensures
        entries::<K, V>(map@).reverse().len() == K::N,
        entries::<K, V>(map@).reverse()[i] == (K::nth((K::N - 1 - i) as nat), map@[K::N - 1 - i]),
        entries::<K, V>(map@).reverse()[i].0.ordinal() == K::N - 1 - i,
{
    map.lemma_view_len();
}

/// Assigning to the slot of one key changes the value for that key and for
/// no other.
pub proof fn lemma_update_one_key<K: Internal, V>(values: Seq<V>, key: K, value: V, other: K)
    requires
        numbered::<K>(),
        values.len() == K::N,
    ensures
        values.update(key.ordinal() as int, value)[key.ordinal() as int] == value,
        other != key ==> values.update(key.ordinal() as int, value)[other.ordinal() as int]
            == values[other.ordinal() as int],
{
    if other != key && other.ordinal() == key.ordinal() {
        lemma_ordinal_injective(other, key);
    }
}

/// A key type without keys gives a map without slots and without pairs.
pub proof fn lemma_no_keys<K: Internal, V>(map: EnumMap<K, V>)
    requires
        K::N == 0,
    ensures
        map@.len() == 0,
        entries::<K, V>(map@).len() == 0,
{
    map.lemma_view_len();
}

} // verus!
