//! The numbering of a finite key type.

use vstd::prelude::*;

verus! {

/// A key type with finitely many values, numbered densely from zero.
///
/// An implementation gives the number of keys and the two conversions
/// between a key and its number. The contracts of the conversions make the
/// numbering a bijection between the keys and `0..N`: every number below `N`
/// belongs to exactly one key.
///
/// A verified implementation defines `ordinal` and `nth`; the defaults leave
/// both unspecified.
pub trait Internal: Sized {
    /// The number of keys.
    const N: usize;

    /// The number of a key.
    open spec fn ordinal(self) -> nat {
        arbitrary()
    }

    /// The key that has the number `i`.
    open spec fn nth(i: nat) -> Self {
        arbitrary()
    }

    /// Converts a key to its number, which lies below `N` and leads back to
    /// the key.
    fn to_usize(self) -> (i: usize)
        ensures
            i == self.ordinal(),
            i < Self::N,
            Self::nth(i as nat) == self,
    ;

    /// Converts a number below `N` to the key that it belongs to.
    fn from_usize(i: usize) -> (key: Self)
        requires
            i < Self::N,
        ensures
            key == Self::nth(i as nat),
            key.ordinal() == i,
    ;
}

/// Whether the numbering of `K` is a bijection between its keys and `0..N`.
pub open spec fn numbered<K: Internal>() -> bool {
    &&& forall|key: K| #[trigger] key.ordinal() < K::N && K::nth(key.ordinal()) == key
    &&& forall|i: nat| i < K::N ==> (#[trigger] K::nth(i)).ordinal() == i
}

/// Two keys with the same number are the same key.
pub proof fn lemma_ordinal_injective<K: Internal>(a: K, b: K)
    requires
        numbered::<K>(),
        a.ordinal() == b.ordinal(),
    ensures
        a == b,
{
    assert(K::nth(a.ordinal()) == a);
    assert(K::nth(b.ordinal()) == b);
}

/// Every key is the key of its own number, and that number lies below `N`.
pub proof fn lemma_round_trip<K: Internal>(key: K)
    requires
        numbered::<K>(),
    ensures
        key.ordinal() < K::N,
        K::nth(key.ordinal()) == key,
{
}

impl Internal for bool {
    const N: usize = 2;

    open spec fn ordinal(self) -> nat {
        if self {
            1
        } else {
            0
        }
    }

    open spec fn nth(i: nat) -> bool {
        i != 0
    }

    fn to_usize(self) -> (i: usize) {
        if self {
            1
        } else {
            0
        }
    }

    fn from_usize(i: usize) -> (key: bool) {
        i != 0
    }
}

impl Internal for u8 {
    const N: usize = 256;

    open spec fn ordinal(self) -> nat {
        self as nat
    }

    open spec fn nth(i: nat) -> u8 {
        i as u8
    }

    fn to_usize(self) -> (i: usize) {
        self as usize
    }

    fn from_usize(i: usize) -> (key: u8) {
        i as u8
    }
}

impl Internal for Option<bool> {
    const N: usize = 3;

    open spec fn ordinal(self) -> nat {
        match self {
            None => 0,
            Some(false) => 1,
            Some(true) => 2,
        }
    }

    open spec fn nth(i: nat) -> Option<bool> {
        if i == 0 {
            None
        } else {
            Some(i != 1)
        }
    }

    fn to_usize(self) -> (i: usize) {
        match self {
            None => 0,
            Some(false) => 1,
            Some(true) => 2,
        }
    }

    fn from_usize(i: usize) -> (key: Option<bool>) {
        if i == 0 {
            None
        } else {
            Some(i != 1)
        }
    }
}

/// `bool` has two keys, and its numbering is a bijection: `false` is 0 and
/// `true` is 1.
pub proof fn lemma_bool_numbered()
    ensures
        <bool as Internal>::N == 2,
        numbered::<bool>(),
{
}

/// `u8` has 256 keys, and its numbering is a bijection: every byte is its
/// own number.
pub proof fn lemma_u8_numbered()
    ensures
        <u8 as Internal>::N == 256,
        numbered::<u8>(),
{
}

/// `Option<bool>` has three keys, and its numbering is a bijection: `None`
/// is 0, `Some(false)` is 1 and `Some(true)` is 2.
pub proof fn lemma_option_bool_numbered()
    ensures
        <Option<bool> as Internal>::N == 3,
        numbered::<Option<bool>>(),
{
}

} // verus!
