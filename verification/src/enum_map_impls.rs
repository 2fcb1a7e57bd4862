//! What a map has from its slots alone: comparing, hashing, cloning,
//! formatting, filling with defaults, indexing by key, and taking over a
//! list of pairs.

use crate::internal::Internal;
use crate::map::EnumMap;
use core::fmt::{Debug, DebugMap, Formatter};
use core::hash::{Hash, Hasher};
use core::marker::PhantomData;
use core::ops::{Index, IndexMut};
use vstd::prelude::*;
use vstd::std_specs::cmp::{PartialEqSpec, PartialEqSpecImpl};

verus! {

/// `Formatter` of std, which `Debug::fmt` gets and hands on. Nothing is
/// claimed of it.
#[verifier::external_type_specification]
#[verifier::external_body]
pub struct ExFormatter<'a>(Formatter<'a>);

/// `fmt::Error` of std, which `Debug::fmt` hands back. Nothing is claimed of
/// it.
#[verifier::external_type_specification]
#[verifier::external_body]
pub struct ExFmtError(core::fmt::Error);

/// `Hash::hash` of std for slices: feeds the slice's length and then its
/// elements, first to last, into the hasher. Nothing is claimed of what the
/// hasher makes of them.
pub assume_specification<S: Hash, H: Hasher>[ <[S] as Hash>::hash ](slice: &[S], state: &mut H)
;

/// `DebugMap` of std, the builder that `Formatter::debug_map` hands out.
/// Nothing is claimed of it.
#[verifier::external_type_specification]
#[verifier::external_body]
pub struct ExDebugMap<'a, 'b: 'a>(DebugMap<'a, 'b>);

/// `Formatter::debug_map` of std: starts writing a map. Nothing is claimed
/// of the text.
#[verifier::external_body]
fn debug_map<'a, 'b>(f: &'a mut Formatter<'b>) -> DebugMap<'a, 'b> {
    f.debug_map()
}

/// `DebugMap::entry` of std: writes one more pair, the key and the value each
/// by its own `Debug`. Nothing is claimed of the text.
#[verifier::external_body]
fn debug_entry<A: Debug, B: Debug>(out: &mut DebugMap<'_, '_>, key: &A, value: &B) {
    out.entry(key, value);
}

/// `DebugMap::finish` of std: ends the map and says whether all of it could
/// be written. Nothing is claimed of the text or of the answer.
#[verifier::external_body]
fn debug_finish(out: &mut DebugMap<'_, '_>) -> Result<(), core::fmt::Error> {
    out.finish()
}

/// The value of the last pair in `pairs` whose key has the number `slot`, if
/// there is such a pair.
pub open spec fn last_write<K: Internal, V>(pairs: Seq<(K, V)>, slot: int) -> Option<V>
    decreases pairs.len(),
{
    if pairs.len() == 0 {
        None
    } else if pairs.last().0.ordinal() == slot {
        Some(pairs.last().1)
    } else {
        last_write(pairs.drop_last(), slot)
    }
}

/// What the slots hold after the pairs were assigned to them one after the
/// other: in each slot the value of the last pair for it, or the old value
/// where no pair names the slot.
pub open spec fn assigned<K: Internal, V>(values: Seq<V>, pairs: Seq<(K, V)>) -> Seq<V> {
    Seq::new(
        values.len(),
        |slot: int|
            match last_write(pairs, slot) {
                Some(value) => value,
                None => values[slot],
            },
    )
}

/// The pairs that a list of borrowed pairs stands for.
pub open spec fn copied<K, V>(pairs: Seq<(&K, &V)>) -> Seq<(K, V)> {
    Seq::new(pairs.len(), |i: int| (*pairs[i].0, *pairs[i].1))
}

/// Assigning one more pair after the first `done` pairs gives what
/// assigning the first `done + 1` pairs gives.
proof fn lemma_assigned_step<K: Internal, V>(values: Seq<V>, pairs: Seq<(K, V)>, done: int)
    requires
        0 <= done < pairs.len(),
        pairs[done].0.ordinal() < values.len(),
    ensures
        assigned(values, pairs.take(done)).update(
            pairs[done].0.ordinal() as int,
            pairs[done].1,
        ) == assigned(values, pairs.take(done + 1)),
{
    let before = assigned(values, pairs.take(done));
    let after = assigned(values, pairs.take(done + 1));
    assert(pairs.take(done + 1).drop_last() =~= pairs.take(done));
    assert(pairs.take(done + 1).last() == pairs[done]);
    assert(before.update(pairs[done].0.ordinal() as int, pairs[done].1) =~= after);
}

impl<K: Internal, V> EnumMap<K, V> {
    /// A map with the default value in every slot.
    pub fn new() -> (map: Self) where V: Default
        ensures
            map@.len() == K::N,
            forall|i: int| 0 <= i < K::N ==> call_ensures(V::default, (), #[trigger] map@[i]),
    {
        let fill = |_key: K| -> (value: V)
            ensures
                call_ensures(V::default, (), value),
            { V::default() };
        EnumMap::build(fill)
    }

    /// Assigns each pair to the slot of its key, first pair first. Where
    /// several pairs have the same key, the last of them stays.
    pub fn extend(&mut self, pairs: Vec<(K, V)>)
        ensures
            final(self)@ == assigned(old(self)@, pairs@),
    {
        let ghost all = pairs@;
        proof {
            self.lemma_view_len();
            assert(self@ =~= assigned(old(self)@, all.take(0)));
        }
        for pair in it: pairs
            invariant
                it.seq() == all,
                old(self)@.len() == K::N,
                self@ == assigned(old(self)@, all.take(it.index() as int)),
        {
            assert(pair == all[it.index() as int]);
            let (key, value) = pair;
            self.set(key, value);
            proof {
                lemma_assigned_step(old(self)@, all, it.index() as int);
            }
        }
        assert(all.take(all.len() as int) =~= all);
    }

    /// Assigns a copy of each borrowed pair to the slot of its key, first
    /// pair first. Where several pairs have the same key, the last of them
    /// stays.
    pub fn extend_from_refs(&mut self, pairs: Vec<(&K, &V)>) where K: Copy, V: Copy
        ensures
            final(self)@ == assigned(old(self)@, copied(pairs@)),
    {
        let ghost all = copied(pairs@);
        proof {
            self.lemma_view_len();
            assert(self@ =~= assigned(old(self)@, all.take(0)));
        }
        let mut i: usize = 0;
        while i < pairs.len()
            invariant
                i <= pairs@.len(),
                all == copied(pairs@),
                old(self)@.len() == K::N,
                self@ == assigned(old(self)@, all.take(i as int)),
            decreases pairs@.len() - i,
        {
            let (key, value) = pairs[i];
            self.set(*key, *value);
            proof {
                lemma_assigned_step(old(self)@, all, i as int);
            }
            i += 1;
        }
        assert(all.take(all.len() as int) =~= all);
    }
}

impl<K: Internal, V: Default> Default for EnumMap<K, V> {
    /// A map with the default value in every slot.
    fn default() -> (map: Self)
        ensures
            map@.len() == K::N,
            forall|i: int| 0 <= i < K::N ==> call_ensures(V::default, (), #[trigger] map@[i]),
    {
        EnumMap::new()
    }
}

impl<K: Internal, V: Clone> Clone for EnumMap<K, V> {
    /// A map of its own with a clone of every value, slot by slot.
    fn clone(&self) -> (copy: Self)
        ensures
            copy@.len() == K::N,
            forall|i: int| 0 <= i < K::N ==> cloned(#[trigger] self@[i], copy@[i]),
    {
        proof {
            use_type_invariant(self);
            self.lemma_view_is_array();
        }
        let copy = EnumMap { array: self.array.clone(), marker: PhantomData };
        proof {
            copy.lemma_view_is_array();
        }
        copy
    }
}

impl<K: Internal, V: PartialEq> PartialEqSpecImpl for EnumMap<K, V> {
    open spec fn obeys_eq_spec() -> bool {
        V::obeys_eq_spec()
    }

    /// Two maps are equal when their values are equal slot by slot.
    open spec fn eq_spec(&self, other: &Self) -> bool {
        forall|i: int| 0 <= i < K::N ==> #[trigger] self@[i].eq_spec(&other@[i])
    }
}

impl<K: Internal, V: PartialEq> PartialEq for EnumMap<K, V> {
    fn eq(&self, other: &Self) -> (equal: bool) {
        proof {
            use_type_invariant(self);
            use_type_invariant(other);
            self.lemma_view_is_array();
            other.lemma_view_is_array();
        }
        self.array == other.array
    }
}

impl<K: Internal, V: Eq> Eq for EnumMap<K, V> {

}

impl<K: Internal, V: Hash> Hash for EnumMap<K, V> {
    /// Hashes the values as one slice in slot order, so maps with the same
    /// values feed the hasher the same.
    fn hash<H: Hasher>(&self, state: &mut H) {
        self.as_slice().hash(state)
    }
}

impl<K: Internal + Debug, V: Debug> Debug for EnumMap<K, V> {
    /// Writes the map as the pairs of key and value in slot order.
    fn fmt(&self, f: &mut Formatter<'_>) -> Result<(), core::fmt::Error> {
        let mut out = debug_map(f);
        let mut walk = self.iter();
        while walk.len() > 0
            decreases walk.remaining().len(),
        {
            if let Some((key, value)) = walk.next() {
                debug_entry(&mut out, &key, value);
            }
        }
        debug_finish(&mut out)
    }
}

impl<K: Internal, V> vstd::std_specs::core::IndexSpecImpl<K> for EnumMap<K, V> {
    /// Every key has a slot, so every key may be looked up.
    open spec fn index_req(&self, index: &K) -> bool {
        true
    }
}

impl<K: Internal, V> Index<K> for EnumMap<K, V> {
    type Output = V;

    /// The value for `key`.
    fn index(&self, key: K) -> (value: &V)
        ensures
            key.ordinal() < K::N,
            *value == self.spec_index(key),
    {
        self.get(key)
    }
}

impl<K: Internal, V> IndexMut<K> for EnumMap<K, V> {
    /// The slot for `key`, open for change. What the caller leaves in it is
    /// the map's new value for `key`; the other slots stay as they are.
    fn index_mut(&mut self, key: K) -> (value: &mut V)
        ensures
            key.ordinal() < K::N,
            *value == old(self).spec_index(key),
            final(self)@ == old(self)@.update(key.ordinal() as int, *final(value)),
    {
        self.get_mut(key)
    }
}

} // verus!
