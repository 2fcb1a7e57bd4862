use enum_map::{EnumMap, Internal, IntoIter};

use std::cell::RefCell;
use std::collections::HashSet;
use std::marker::PhantomData;
use std::rc::Rc;

#[derive(Copy, Clone, Debug, PartialEq)]
enum Example {
    A,
    B,
    C,
}

impl Internal for Example {
    const N: usize = 3;

    fn to_usize(self) -> usize {
        match self {
            Example::A => 0,
            Example::B => 1,
            Example::C => 2,
        }
    }

    fn from_usize(i: usize) -> Example {
        match i {
            0 => Example::A,
            1 => Example::B,
            2 => Example::C,
            _ => unreachable!(),
        }
    }
}

#[test]
fn test_bool() {
    let mut map = EnumMap::build(|key: bool| if key { 42 } else { 24 });
    assert_eq!(map[false], 24);
    assert_eq!(map[true], 42);
    map[false] += 1;
    assert_eq!(map[false], 25);
    let mut pairs = map.iter_mut();
    while let Some((key, item)) = pairs.next() {
        if !key {
            *item += 1;
        }
    }
    assert_eq!(map[false], 26);
    assert_eq!(map[true], 42);
}

#[test]
fn test_option_bool() {
    let mut map = EnumMap::build(|key: Option<bool>| match key {
        None => 1,
        Some(false) => 2,
        Some(true) => 3,
    });
    assert_eq!(map[None], 1);
    assert_eq!(map[Some(false)], 2);
    assert_eq!(map[Some(true)], 3);
    map[None] = 4;
    map[Some(false)] = 5;
    map[Some(true)] = 6;
    assert_eq!(map[None], 4);
    assert_eq!(map[Some(false)], 5);
    assert_eq!(map[Some(true)], 6);
    assert_eq!(map.as_slice(), [4, 5, 6]);
    let expected = [(None, 4), (Some(false), 5), (Some(true), 6)];
    assert_eq!(map.into_iter().collect(), expected);
}

#[test]
fn test_clone() {
    let map = EnumMap::build(|key: bool| if key { 5 } else { 3 });
    assert_eq!(map.clone(), map);
}

#[test]
fn test_debug() {
    let map = EnumMap::build(|key: bool| if key { 5 } else { 3 });
    assert_eq!(format!("{:?}", map), "{false: 3, true: 5}");
}

#[test]
fn test_hash() {
    let map = EnumMap::build(|key: bool| if key { 5 } else { 3 });
    let mut set = HashSet::new();
    set.insert(map.clone());
    assert!(set.contains(&map));
}

#[test]
fn discriminants() {
    #[derive(Debug, PartialEq)]
    enum Discriminants {
        A = 2000,
        B = 3000,
        C = 1000,
    }
    impl Internal for Discriminants {
        const N: usize = 3;

        fn to_usize(self) -> usize {
            match self {
                Discriminants::A => 0,
                Discriminants::B => 1,
                Discriminants::C => 2,
            }
        }

        fn from_usize(i: usize) -> Discriminants {
            match i {
                0 => Discriminants::A,
                1 => Discriminants::B,
                2 => Discriminants::C,
                _ => unreachable!(),
            }
        }
    }
    let mut map = EnumMap::new();
    map[Discriminants::A] = 3;
    map[Discriminants::B] = 2;
    map[Discriminants::C] = 1;
    let mut pairs = map.iter();
    assert_eq!(pairs.next(), Some((Discriminants::A, &3)));
    assert_eq!(pairs.next(), Some((Discriminants::B, &2)));
    assert_eq!(pairs.next(), Some((Discriminants::C, &1)));
    assert_eq!(pairs.next(), None);
}

#[test]
fn extend() {
    let mut map = EnumMap::build(|_: Example| 0);
    map.extend(vec![(Example::A, 3)]);
    map.extend_from_refs(vec![(&Example::B, &4)]);
    assert_eq!(
        map,
        EnumMap::build(|key| match key {
            Example::A => 3,
            Example::B => 4,
            Example::C => 0,
        })
    );
}

#[test]
fn iterator_len() {
    assert_eq!(EnumMap::build(|_: Example| 0).iter().len(), 3);
}

#[test]
fn iter_mut_len() {
    assert_eq!(EnumMap::build(|_: Example| 0).iter_mut().len(), 3);
}

#[test]
fn into_iter_len() {
    assert_eq!(EnumMap::build(|_: Example| 0).into_iter().len(), 3);
}

#[test]
fn iterator_next_back() {
    assert_eq!(
        EnumMap::build(|key| match key {
            Example::A => 1,
            Example::B => 2,
            Example::C => 3,
        })
        .iter()
        .next_back(),
        Some((Example::C, &3))
    );
}

#[test]
fn iter_mut_next_back() {
    assert_eq!(
        EnumMap::build(|key| match key {
            Example::A => 1,
            Example::B => 2,
            Example::C => 3,
        })
        .iter_mut()
        .next_back(),
        Some((Example::C, &mut 3))
    );
}

#[test]
fn into_iter() {
    let mut iter = EnumMap::build(|key: bool| if key { 5 } else { 7 }).into_iter();
    assert_eq!(iter.next(), Some((false, 7)));
    assert_eq!(iter.next(), Some((true, 5)));
    assert_eq!(iter.next(), None);
    assert_eq!(iter.next(), None);
}

#[test]
fn into_iter_u8() {
    assert_eq!(
        EnumMap::build(|i: u8| i).into_iter().collect(),
        (0..256).map(|x| (x as u8, x as u8)).collect::<Vec<_>>()
    );
}

struct DropReporter<'a> {
    into: &'a RefCell<Vec<usize>>,
    value: usize,
}

impl<'a> Drop for DropReporter<'a> {
    fn drop(&mut self) {
        self.into.borrow_mut().push(self.value);
    }
}

#[test]
fn into_iter_drop() {
    let dropped = RefCell::new(Vec::new());
    let mut a: IntoIter<Example, _> = EnumMap::build(|k: Example| DropReporter {
        into: &dropped,
        value: k as usize,
    })
    .into_iter();
    assert_eq!(a.next().unwrap().0, Example::A);
    assert_eq!(*dropped.borrow(), &[0]);
    drop(a);
    assert_eq!(*dropped.borrow(), &[0, 1, 2]);
}

#[test]
fn test_u8() {
    let mut map = EnumMap::build(|key: u8| if key == b'a' { 4 } else { 0 });
    map[b'c'] = 3;
    assert_eq!(map[b'a'], 4);
    assert_eq!(map[b'b'], 0);
    assert_eq!(map[b'c'], 3);
    assert_eq!(map.iter().next(), Some((0, &0)));
}

enum Void {}

impl Internal for Void {
    const N: usize = 0;

    fn to_usize(self) -> usize {
        match self {}
    }

    fn from_usize(_: usize) -> Void {
        unreachable!()
    }
}

#[test]
fn empty_map() {
    let void: EnumMap<Void, Void> = EnumMap::build(|key: Void| key);
    assert!(void.is_empty());
}

#[test]
#[should_panic]
fn empty_value() {
    let _void: EnumMap<bool, Void> = EnumMap::build(|_| unreachable!());
}

#[derive(Clone, Copy)]
enum X {
    A(PhantomData<Rc<()>>),
}

impl Internal for X {
    const N: usize = 1;

    fn to_usize(self) -> usize {
        0
    }

    fn from_usize(arg: usize) -> X {
        assert_eq!(arg, 0);
        X::A(PhantomData)
    }
}

fn assert_sync_send<T: Sync + Send>(_: T) {}

#[test]
fn assert_enum_map_does_not_copy_sync_send_dependency_of_keys() {
    let mut map = EnumMap::build(|_: X| true);
    assert_sync_send(map.clone());
    assert_sync_send(&map);
    assert_sync_send(&mut map);
    assert_sync_send(map.iter());
    assert_sync_send(map.iter_mut());
    assert_sync_send(map.clone().into_iter());
    assert_eq!(map[X::A(PhantomData)], true);
}

#[test]
fn huge_enum() {
    enum Example {
        A,
        B,
        C,
        D,
        E,
        F,
        G,
        H,
        I,
        J,
        K,
        L,
        M,
        N,
        O,
        P,
        Q,
        R,
        S,
        T,
        U,
        V,
        W,
        X,
        Y,
        Z,
        Aa,
        Bb,
        Cc,
        Dd,
        Ee,
        Ff,
        Gg,
        Hh,
        Ii,
        Jj,
        Kk,
        Ll,
        Mm,
        Nn,
        Oo,
        Pp,
        Qq,
        Rr,
        Ss,
        Tt,
        Uu,
        Vv,
        Ww,
        Xx,
        Yy,
        Zz,
    }
    impl Internal for Example {
        const N: usize = 52;

        fn to_usize(self) -> usize {
            match self {
                Example::A => 0,
                Example::B => 1,
                Example::C => 2,
                Example::D => 3,
                Example::E => 4,
                Example::F => 5,
                Example::G => 6,
                Example::H => 7,
                Example::I => 8,
                Example::J => 9,
                Example::K => 10,
                Example::L => 11,
                Example::M => 12,
                Example::N => 13,
                Example::O => 14,
                Example::P => 15,
                Example::Q => 16,
                Example::R => 17,
                Example::S => 18,
                Example::T => 19,
                Example::U => 20,
                Example::V => 21,
                Example::W => 22,
                Example::X => 23,
                Example::Y => 24,
                Example::Z => 25,
                Example::Aa => 26,
                Example::Bb => 27,
                Example::Cc => 28,
                Example::Dd => 29,
                Example::Ee => 30,
                Example::Ff => 31,
                Example::Gg => 32,
                Example::Hh => 33,
                Example::Ii => 34,
                Example::Jj => 35,
                Example::Kk => 36,
                Example::Ll => 37,
                Example::Mm => 38,
                Example::Nn => 39,
                Example::Oo => 40,
                Example::Pp => 41,
                Example::Qq => 42,
                Example::Rr => 43,
                Example::Ss => 44,
                Example::Tt => 45,
                Example::Uu => 46,
                Example::Vv => 47,
                Example::Ww => 48,
                Example::Xx => 49,
                Example::Yy => 50,
                Example::Zz => 51,
            }
        }

        fn from_usize(i: usize) -> Example {
            match i {
                0 => Example::A,
                1 => Example::B,
                2 => Example::C,
                3 => Example::D,
                4 => Example::E,
                5 => Example::F,
                6 => Example::G,
                7 => Example::H,
                8 => Example::I,
                9 => Example::J,
                10 => Example::K,
                11 => Example::L,
                12 => Example::M,
                13 => Example::N,
                14 => Example::O,
                15 => Example::P,
                16 => Example::Q,
                17 => Example::R,
                18 => Example::S,
                19 => Example::T,
                20 => Example::U,
                21 => Example::V,
                22 => Example::W,
                23 => Example::X,
                24 => Example::Y,
                25 => Example::Z,
                26 => Example::Aa,
                27 => Example::Bb,
                28 => Example::Cc,
                29 => Example::Dd,
                30 => Example::Ee,
                31 => Example::Ff,
                32 => Example::Gg,
                33 => Example::Hh,
                34 => Example::Ii,
                35 => Example::Jj,
                36 => Example::Kk,
                37 => Example::Ll,
                38 => Example::Mm,
                39 => Example::Nn,
                40 => Example::Oo,
                41 => Example::Pp,
                42 => Example::Qq,
                43 => Example::Rr,
                44 => Example::Ss,
                45 => Example::Tt,
                46 => Example::Uu,
                47 => Example::Vv,
                48 => Example::Ww,
                49 => Example::Xx,
                50 => Example::Yy,
                51 => Example::Zz,
                _ => unreachable!(),
            }
        }
    }

    let map = EnumMap::build(|_: Example| 2);
    assert_eq!(map[Example::Xx], 2);
}
