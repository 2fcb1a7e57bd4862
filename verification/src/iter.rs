//! Walking a map from either end: by reference, by mutable reference and by
//! value.
//!
//! Each iterator stands for the pairs of key and value that it has not yet
//! handed out, in the order of the keys' numbers. `next` takes the first of
//! them and `next_back` the last, until none is left.

use crate::internal::Internal;
use crate::map::{entries, EnumMap};
use core::marker::PhantomData;
use core::sync::atomic::AtomicPtr;
use std::collections::VecDeque;
use vstd::prelude::*;

verus! {

/// Walks a map and hands out each key with a reference to its value.
#[verifier::reject_recursive_types(K)]
pub struct Iter<'a, K: Internal, V> {
    values: &'a [V],
    low: usize,
    high: usize,
    marker: PhantomData<AtomicPtr<K>>,
}

impl<'a, K: Internal, V> Iter<'a, K, V> {
    #[verifier::type_invariant]
    closed spec fn well_formed(self) -> bool {
        &&& self.low <= self.high
        &&& self.high <= K::N
        &&& self.values@.len() == K::N
    }

    /// The pairs not yet handed out, first to last.
    pub closed spec fn remaining(self) -> Seq<(K, V)> {
        Seq::new(
            (self.high - self.low) as nat,
            |j: int| (K::nth((self.low + j) as nat), self.values@[self.low + j]),
        )
    }

    /// The number of pairs not yet handed out.
    pub fn len(&self) -> (n: usize)
        ensures
            n == self.remaining().len(),
    {
        proof {
            use_type_invariant(self);
        }
        self.high - self.low
    }

    /// Hands out the first remaining pair, or `None` when none is left.
    pub fn next(&mut self) -> (item: Option<(K, &'a V)>)
        ensures
            match item {
                Some((key, value)) => {
                    &&& old(self).remaining().len() > 0
                    &&& (key, *value) == old(self).remaining().first()
                    &&& final(self).remaining() == old(self).remaining().drop_first()
                    &&& final(self).remaining().len() == old(self).remaining().len() - 1
                },
                None => {
                    &&& old(self).remaining().len() == 0
                    &&& final(self).remaining() == old(self).remaining()
                },
            },
    {
        proof {
            use_type_invariant(&*self);
        }
        if self.low < self.high {
            let i = self.low;
            let key = K::from_usize(i);
            let values: &'a [V] = self.values;
            self.low = i + 1;
            assert(self.remaining() =~= old(self).remaining().drop_first());
            Some((key, &values[i]))
        } else {
            None
        }
    }

    /// Hands out the last remaining pair, or `None` when none is left.
    pub fn next_back(&mut self) -> (item: Option<(K, &'a V)>)
        ensures
            match item {
                Some((key, value)) => {
                    &&& old(self).remaining().len() > 0
                    &&& (key, *value) == old(self).remaining().last()
                    &&& final(self).remaining() == old(self).remaining().drop_last()
                    &&& final(self).remaining().len() == old(self).remaining().len() - 1
                },
                None => {
                    &&& old(self).remaining().len() == 0
                    &&& final(self).remaining() == old(self).remaining()
                },
            },
    {
        proof {
            use_type_invariant(&*self);
        }
        if self.low < self.high {
            let i = self.high - 1;
            let key = K::from_usize(i);
            let values: &'a [V] = self.values;
            self.high = i;
            assert(self.remaining() =~= old(self).remaining().drop_last());
            Some((key, &values[i]))
        } else {
            None
        }
    }

    /// Hands out all remaining pairs at once, first to last.
    pub fn collect(self) -> (pairs: Vec<(K, &'a V)>)
        ensures
            pairs@.len() == self.remaining().len(),
            forall|i: int|
                0 <= i < pairs@.len() ==> (#[trigger] pairs@[i].0, *pairs@[i].1)
                    == self.remaining()[i],
    {
        let mut rest = self;
        let mut pairs: Vec<(K, &'a V)> = Vec::new();
        while rest.len() > 0
            invariant
                pairs@.len() + rest.remaining().len() == self.remaining().len(),
                forall|i: int|
                    0 <= i < pairs@.len() ==> (#[trigger] pairs@[i].0, *pairs@[i].1)
                        == self.remaining()[i],
                forall|i: int|
                    0 <= i < rest.remaining().len() ==> #[trigger] rest.remaining()[i]
                        == self.remaining()[pairs@.len() + i],
            decreases rest.remaining().len(),
        {
            if let Some(pair) = rest.next() {
                pairs.push(pair);
            }
        }
        pairs
    }

    /// Hands out all remaining pairs at once, last to first.
    pub fn collect_rev(self) -> (pairs: Vec<(K, &'a V)>)
        ensures
            pairs@.len() == self.remaining().len(),
            forall|i: int|
                0 <= i < pairs@.len() ==> (#[trigger] pairs@[i].0, *pairs@[i].1)
                    == self.remaining()[self.remaining().len() - 1 - i],
    {
        let mut rest = self;
        let mut pairs: Vec<(K, &'a V)> = Vec::new();
        while rest.len() > 0
            invariant
                pairs@.len() + rest.remaining().len() == self.remaining().len(),
                forall|i: int|
                    0 <= i < pairs@.len() ==> (#[trigger] pairs@[i].0, *pairs@[i].1)
                        == self.remaining()[self.remaining().len() - 1 - i],
                forall|i: int|
                    0 <= i < rest.remaining().len() ==> #[trigger] rest.remaining()[i]
                        == self.remaining()[i],
            decreases rest.remaining().len(),
        {
            if let Some(pair) = rest.next_back() {
                pairs.push(pair);
            }
        }
        pairs
    }
}

/// Walks a map and hands out each key with a mutable reference to its
/// value.
///
/// The iterator holds the slots not yet handed out as one mutable slice and
/// splits one slot off it at each step, so the references it hands out never
/// overlap and may all be alive at once.
#[verifier::reject_recursive_types(K)]
pub struct IterMut<'a, K: Internal, V> {
    rest: &'a mut [V],
    low: usize,
    marker: PhantomData<AtomicPtr<K>>,
}

impl<'a, K: Internal, V> IterMut<'a, K, V> {
    #[verifier::type_invariant]
    closed spec fn well_formed(self) -> bool {
        self.low + self.rest@.len() <= K::N
    }

    /// The pairs not yet handed out, first to last, with the values as they
    /// are now.
    pub closed spec fn remaining(self) -> Seq<(K, V)> {
        Seq::new(self.rest@.len(), |j: int| (K::nth((self.low + j) as nat), self.rest@[j]))
    }

    /// The reference to the slots not yet handed out. Its final content is
    /// what those slots hold once the iterator and every reference that it
    /// handed out are gone.
    pub closed spec fn slots(self) -> &'a mut [V] {
        self.rest
    }

    /// The number of pairs not yet handed out.
    pub fn len(&self) -> (n: usize)
        ensures
            n == self.remaining().len(),
    {
        self.rest.len()
    }

    /// Hands out the first remaining pair, or `None` when none is left.
    ///
    /// The slots that the iterator held before the call end up as what the
    /// caller leaves in the value handed out, followed by what becomes of
    /// the slots that the iterator still holds.
    pub fn next(&mut self) -> (item: Option<(K, &'a mut V)>)
        ensures
            match item {
                Some((key, value)) => {
                    &&& old(self).remaining().len() > 0
                    &&& (key, *value) == old(self).remaining().first()
                    &&& final(self).remaining() == old(self).remaining().drop_first()
                    &&& final(self).remaining().len() == old(self).remaining().len() - 1
                    &&& final(old(self).slots())@
                        == seq![*final(value)] + final(final(self).slots())@
                },
                None => {
                    &&& old(self).remaining().len() == 0
                    &&& *final(self) == *old(self)
                },
            },
    {
        proof {
            use_type_invariant(&*self);
        }
        if self.rest.len() == 0 {
            return None;
        }
        let mut slice: &'a mut [V] = &mut [];
        core::mem::swap(&mut slice, &mut self.rest);
        let (head, tail) = slice.split_at_mut(1);
        let key = K::from_usize(self.low);
        self.rest = tail;
        self.low = self.low + 1;
        assert(self.remaining() =~= old(self).remaining().drop_first());
        Some((key, &mut head[0]))
    }

    /// Hands out the last remaining pair, or `None` when none is left.
    ///
    /// The slots that the iterator held before the call end up as what
    /// becomes of the slots that the iterator still holds, followed by what
    /// the caller leaves in the value handed out.
    pub fn next_back(&mut self) -> (item: Option<(K, &'a mut V)>)
        ensures
            match item {
                Some((key, value)) => {
                    &&& old(self).remaining().len() > 0
                    &&& (key, *value) == old(self).remaining().last()
                    &&& final(self).remaining() == old(self).remaining().drop_last()
                    &&& final(self).remaining().len() == old(self).remaining().len() - 1
                    &&& final(old(self).slots())@
                        == final(final(self).slots())@ + seq![*final(value)]
                },
                None => {
                    &&& old(self).remaining().len() == 0
                    &&& *final(self) == *old(self)
                },
            },
    {
        proof {
            use_type_invariant(&*self);
        }
        let n = self.rest.len();
        if n == 0 {
            return None;
        }
        let mut slice: &'a mut [V] = &mut [];
        core::mem::swap(&mut slice, &mut self.rest);
        let (front, tail) = slice.split_at_mut(n - 1);
        let key = K::from_usize(self.low + (n - 1));
        self.rest = front;
        assert(self.remaining() =~= old(self).remaining().drop_last());
        Some((key, &mut tail[0]))
    }
}

/// Walks a map that it has taken over and hands out each key with its value.
///
/// The values not yet handed out stay in the iterator, in slot order. When
/// the iterator is dropped they are dropped with it, each once and in that
/// order.
#[verifier::reject_recursive_types(K)]
pub struct IntoIter<K: Internal, V> {
    values: VecDeque<V>,
    low: usize,
    marker: PhantomData<AtomicPtr<K>>,
}

impl<K: Internal, V> IntoIter<K, V> {
    #[verifier::type_invariant]
    closed spec fn well_formed(self) -> bool {
        self.low + self.values@.len() <= K::N
    }

    /// The pairs not yet handed out, first to last.
    pub closed spec fn remaining(self) -> Seq<(K, V)> {
        Seq::new(
            self.values@.len(),
            |j: int| (K::nth((self.low + j) as nat), self.values@[j]),
        )
    }

    /// The number of pairs not yet handed out.
    pub fn len(&self) -> (n: usize)
        ensures
            n == self.remaining().len(),
    {
        self.values.len()
    }

    /// Hands out the first remaining pair, or `None` when none is left.
    pub fn next(&mut self) -> (item: Option<(K, V)>)
        ensures
            match item {
                Some(pair) => {
                    &&& old(self).remaining().len() > 0
                    &&& pair == old(self).remaining().first()
                    &&& final(self).remaining() == old(self).remaining().drop_first()
                    &&& final(self).remaining().len() == old(self).remaining().len() - 1
                },
                None => {
                    &&& old(self).remaining().len() == 0
                    &&& final(self).remaining() == old(self).remaining()
                },
            },
    {
        proof {
            use_type_invariant(&*self);
        }
        let mut values: VecDeque<V> = VecDeque::new();
        core::mem::swap(&mut values, &mut self.values);
        let item = match values.pop_front() {
            Some(value) => {
                let key = K::from_usize(self.low);
                self.low = self.low + 1;
                Some((key, value))
            },
            None => None,
        };
        self.values = values;
        assert(item.is_some() ==> self.remaining() =~= old(self).remaining().drop_first());
        assert(item.is_none() ==> self.remaining() =~= old(self).remaining());
        item
    }

    /// Hands out the last remaining pair, or `None` when none is left.
    pub fn next_back(&mut self) -> (item: Option<(K, V)>)
        ensures
            match item {
                Some(pair) => {
                    &&& old(self).remaining().len() > 0
                    &&& pair == old(self).remaining().last()
                    &&& final(self).remaining() == old(self).remaining().drop_last()
                    &&& final(self).remaining().len() == old(self).remaining().len() - 1
                },
                None => {
                    &&& old(self).remaining().len() == 0
                    &&& final(self).remaining() == old(self).remaining()
                },
            },
    {
        proof {
            use_type_invariant(&*self);
        }
        let mut values: VecDeque<V> = VecDeque::new();
        core::mem::swap(&mut values, &mut self.values);
        let item = match values.pop_back() {
            Some(value) => {
                let key = K::from_usize(self.low + values.len());
                Some((key, value))
            },
            None => None,
        };
        self.values = values;
        assert(item.is_some() ==> self.remaining() =~= old(self).remaining().drop_last());
        assert(item.is_none() ==> self.remaining() =~= old(self).remaining());
        item
    }

    /// Hands out all remaining pairs at once, first to last.
    pub fn collect(self) -> (pairs: Vec<(K, V)>)
        ensures
            pairs@ == self.remaining(),
    {
        let mut rest = self;
        let mut pairs: Vec<(K, V)> = Vec::new();
        while rest.len() > 0
            invariant
                pairs@ + rest.remaining() == self.remaining(),
            decreases rest.remaining().len(),
        {
            let ghost before = rest.remaining();
            if let Some(pair) = rest.next() {
                pairs.push(pair);
                assert(pairs@ + rest.remaining() =~= pairs@.drop_last() + before);
            }
        }
        assert(pairs@ =~= pairs@ + rest.remaining());
        pairs
    }

    /// Hands out all remaining pairs at once, last to first.
    pub fn collect_rev(self) -> (pairs: Vec<(K, V)>)
        ensures
            pairs@ == self.remaining().reverse(),
    {
        let mut rest = self;
        let mut pairs: Vec<(K, V)> = Vec::new();
        while rest.len() > 0
            invariant
                rest.remaining() + pairs@.reverse() == self.remaining(),
            decreases rest.remaining().len(),
        {
            let ghost before = rest.remaining();
            if let Some(pair) = rest.next_back() {
                pairs.push(pair);
                assert(rest.remaining() + pairs@.reverse() =~= before + pairs@.drop_last().reverse());
            }
        }
        assert(pairs@.reverse() =~= rest.remaining() + pairs@.reverse());
        assert(pairs@ =~= pairs@.reverse().reverse());
        pairs
    }
}

impl<K: Internal, V> EnumMap<K, V> {
    /// Starts a walk over all pairs of the map, by reference.
    pub fn iter(&self) -> (it: Iter<'_, K, V>)
        ensures
            it.remaining() == entries::<K, V>(self@),
    {
        proof {
            use_type_invariant(self);
            self.lemma_view_is_array();
        }
        let values = self.array.as_slice();
        let it = Iter { values, low: 0, high: K::N, marker: PhantomData };
        assert(it.remaining() =~= entries::<K, V>(self@));
        it
    }

    /// Starts a walk over all pairs of the map, by mutable reference. What
    /// the walk leaves in the slots is the map's content afterwards.
    pub fn iter_mut(&mut self) -> (it: IterMut<'_, K, V>)
        ensures
            it.remaining() == entries::<K, V>(old(self)@),
            it.slots()@ == old(self)@,
            final(self)@ == final(it.slots())@,
    {
        let rest = self.as_mut_slice();
        let it = IterMut { rest, low: 0, marker: PhantomData };
        assert(it.remaining() =~= entries::<K, V>(old(self)@));
        it
    }

    /// Takes the map over and starts a walk over all its pairs, by value.
    pub fn into_iter(self) -> (it: IntoIter<K, V>)
        ensures
            it.remaining() == entries::<K, V>(self@),
    {
        proof {
            use_type_invariant(&self);
            self.lemma_view_is_array();
        }
        let mut array = self.array;
        let mut values: VecDeque<V> = VecDeque::with_capacity(K::N);
        while array.len() > 0
            invariant
                array@ + values@ == self.array@,
            decreases array@.len(),
        {
            let ghost before = array@;
            if let Some(value) = array.pop() {
                values.push_front(value);
                assert(array@ + values@ =~= before + values@.drop_first());
            }
        }
        assert(values@ =~= array@ + values@);
        let it = IntoIter { values, low: 0, marker: PhantomData };
        assert(it.remaining() =~= entries::<K, V>(self@));
        it
    }
}

} // verus!
