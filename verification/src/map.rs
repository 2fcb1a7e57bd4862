//! The map itself: one slot per key, in the order of the keys' numbers.

use crate::internal::Internal;
use core::marker::PhantomData;
use core::sync::atomic::AtomicPtr;
use vstd::prelude::*;

verus! {

/// `AtomicPtr` of std, which the map and its iterators name only inside a
/// `PhantomData`: no value of it is ever made, and nothing is claimed of it.
#[verifier::external_type_specification]
#[verifier::external_body]
#[verifier::reject_recursive_types(P)]
pub struct ExAtomicPtr<P>(AtomicPtr<P>);

/// `Vec::as_mut_slice` of std: the vector's elements as one slice that is
/// open for change. The slice starts out as the vector's content, and what
/// the caller leaves in it is the vector's content afterwards. A slice
/// cannot change its length, so the vector has as many elements afterwards
/// as before. The call does not panic.
#[verifier::external_body]
fn vec_as_mut_slice<T>(values: &mut Vec<T>) -> (slice: &mut [T])
    ensures
        slice@ == old(values)@,
        final(values)@ == final(slice)@,
        final(slice)@.len() == slice@.len(),
    no_unwind
{
    values.as_mut_slice()
}

/// A map that holds exactly one value for every key of `K`.
///
/// The values lie in one buffer of `K::N` slots that is allocated when the
/// map is made and never grows or shrinks. Slot `i` belongs to the key
/// `K::nth(i)`.
///
/// The marker names `K` through a type that can be sent and shared whatever
/// `K` is, so whether a map may cross threads depends on `V` alone.
#[verifier::reject_recursive_types(K)]
pub struct EnumMap<K: Internal, V> {
    pub(crate) array: Vec<V>,
    pub(crate) marker: PhantomData<AtomicPtr<K>>,
}

impl<K: Internal, V> View for EnumMap<K, V> {
    type V = Seq<V>;

    /// The values in slot order. It always has `K::N` entries.
    closed spec fn view(&self) -> Seq<V> {
        Seq::new(K::N as nat, |i: int| self.array@[i])
    }
}

/// The pairs of key and value that a buffer of values stands for, in slot
/// order.
pub open spec fn entries<K: Internal, V>(values: Seq<V>) -> Seq<(K, V)> {
    Seq::new(values.len(), |i: int| (K::nth(i as nat), values[i]))
}

impl<K: Internal, V> EnumMap<K, V> {
    #[verifier::type_invariant]
    pub(crate) open spec fn well_formed(self) -> bool {
        self.array@.len() == K::N
    }

    /// The value that the map holds for `key`.
    pub open spec fn spec_index(self, key: K) -> V {
        self@[key.ordinal() as int]
    }

    /// Whether every slot holds a value that `f` may return for the slot's
    /// key.
    pub open spec fn built_by<F: FnMut(K) -> V>(self, f: F) -> bool {
        forall|i: nat| i < K::N ==> f.ensures((K::nth(i),), #[trigger] self@[i as int])
    }

    /// A map has as many slots as there are keys.
    pub broadcast proof fn lemma_view_len(self)
        ensures
            #[trigger] self@.len() == K::N,
    {
    }

    pub(crate) proof fn lemma_view_is_array(self)
        requires
            self.well_formed(),
        ensures
            self@ == self.array@,
    {
        assert(self@ =~= self.array@);
    }

    /// Builds a map by calling `f` once for each key, in the order of the
    /// keys' numbers.
    ///
    /// `f` has to accept every key. Where there are no keys, that asks
    /// nothing of `f`, and `f` is not called.
    pub fn build<F: FnMut(K) -> V>(f: F) -> (map: Self)
        requires
            forall|i: nat| i < K::N ==> f.requires((#[trigger] K::nth(i),)),
        ensures
            map@.len() == K::N,
            map.built_by(f),
    {
        let mut f = f;
        let ghost f0 = f;
        let mut array: Vec<V> = Vec::with_capacity(K::N);
        let mut i: usize = 0;
        while i < K::N
            invariant
                i <= K::N,
                array@.len() == i,
                f == f0,
                forall|j: nat| j < K::N ==> f0.requires((#[trigger] K::nth(j),)),
                forall|j: nat| j < i ==> f0.ensures((K::nth(j),), #[trigger] array@[j as int]),
            decreases K::N - i,
        {
            let key = K::from_usize(i);
            let value = f(key);
            array.push(value);
            i += 1;
        }
        let map = EnumMap { array, marker: PhantomData };
        proof {
            map.lemma_view_is_array();
        }
        map
    }

    /// The number of slots, which is the number of keys.
    pub fn len(&self) -> (n: usize)
        ensures
            n == K::N,
            n == self@.len(),
    {
        K::N
    }

    /// Whether the key type has no keys, so that the map has no slots.
    pub fn is_empty(&self) -> (empty: bool)
        ensures
            empty <==> K::N == 0,
            empty <==> self@.len() == 0,
    {
        K::N == 0
    }

    /// The value for `key`.
    pub fn get(&self, key: K) -> (value: &V)
        ensures
            key.ordinal() < K::N,
            *value == self.spec_index(key),
    {
        proof {
            use_type_invariant(self);
            self.lemma_view_is_array();
        }
        &self.array[key.to_usize()]
    }

    /// The slot for `key`, open for change. What the caller leaves in it is
    /// the map's new value for `key`; the other slots stay as they are.
    pub fn get_mut(&mut self, key: K) -> (value: &mut V)
        ensures
            key.ordinal() < K::N,
            *value == old(self).spec_index(key),
            final(self)@ == old(self)@.update(key.ordinal() as int, *final(value)),
    {
        proof {
            use_type_invariant(&*self);
            self.lemma_view_is_array();
        }
        let i = key.to_usize();
        &mut self.array[i]
    }

    /// Puts `value` into the slot for `key`; the other slots stay as they are.
    pub fn set(&mut self, key: K, value: V)
        ensures
            key.ordinal() < K::N,
            final(self)@ == old(self)@.update(key.ordinal() as int, value),
    {
        proof {
            use_type_invariant(&*self);
            self.lemma_view_is_array();
        }
        let i = key.to_usize();
        self.array[i] = value;
        proof {
            self.lemma_view_is_array();
        }
    }

    /// All values as a slice, in slot order.
    pub fn as_slice(&self) -> (slice: &[V])
        ensures
            slice@ == self@,
            slice@.len() == K::N,
    {
        proof {
            use_type_invariant(self);
            self.lemma_view_is_array();
        }
        self.array.as_slice()
    }

    /// All values as a slice that is open for change, in slot order. What the
    /// caller leaves in the slice is the map's new content.
    pub fn as_mut_slice(&mut self) -> (slice: &mut [V])
        ensures
            slice@ == old(self)@,
            slice@.len() == K::N,
            final(self)@ == final(slice)@,
    {
        proof {
            use_type_invariant(&*self);
            self.lemma_view_is_array();
        }
        vec_as_mut_slice(&mut self.array)
    }
}

} // verus!
