use soa::Soa2;

struct DropCounter<'a> {
    count: &'a mut i32,
}

impl<'a> Drop for DropCounter<'a> {
    fn drop(&mut self) {
        *self.count += 1;
    }
}

struct TwoVec<T> {
    x: Soa2<T, T>,
    y: Soa2<T, T>,
}

#[test]
fn test_double_drop() {
    let (mut c0, mut c1, mut c2, mut c3) = (0, 0, 0, 0);

    {
        let mut tv = TwoVec {
            x: Soa2::new(),
            y: Soa2::new(),
        };

        tv.x
            .push((DropCounter { count: &mut c0 }, DropCounter { count: &mut c1 }));
        tv.y
            .push((DropCounter { count: &mut c2 }, DropCounter { count: &mut c3 }));

        drop(tv.x);
    }

    assert_eq!(c0, 1);
    assert_eq!(c1, 1);
    assert_eq!(c2, 1);
    assert_eq!(c3, 1);
}

#[test]
fn test_reserve() {
    let mut v = Soa2::new();
    assert_eq!(v.capacity(), 0);

    v.reserve(2);
    assert!(v.capacity() >= 2);

    for i in 0..16 {
        v.push((i, i));
    }

    assert!(v.capacity() >= 16);
    v.reserve(16);
    assert!(v.capacity() >= 32);

    v.push((16, 16));

    v.reserve(16);
    assert!(v.capacity() >= 33);
}

#[test]
fn test_extend() {
    let mut v = Soa2::new();
    let mut w = Soa2::new();

    v.extend((0..3).collect::<Vec<i32>>(), (4..7).collect::<Vec<i32>>());
    for i in (0..3).zip(4..7) {
        w.push(i);
    }

    assert_eq!(v, w);

    v.extend((3..10).collect::<Vec<i32>>(), (7..14).collect::<Vec<i32>>());
    for i in (3..10).zip(7..14) {
        w.push(i);
    }

    assert_eq!(v, w);
}

#[test]
fn test_clone() {
    let v: Soa2<i32, i32> = Soa2::new();
    let mut w: Soa2<i32, i32> = Soa2::new();

    let elems = [1, 2, 3];
    w.push_all(&elems, &elems);

    assert_eq!(v, v.clone());
    let z = w.clone();
    assert_eq!(w, z);
    assert!(w.as_slices().0.as_ptr() != z.as_slices().0.as_ptr());
    assert!(w.as_slices().1.as_ptr() != z.as_slices().1.as_ptr());
}

#[test]
fn test_clone_from() {
    let mut v = Soa2::new();
    let mut three = Soa2::new();
    let three_elems = [Box::new(1), Box::new(2), Box::new(3)];
    three.push_all(&three_elems, &three_elems);
    let mut two = Soa2::new();
    let two_elems = [Box::new(4), Box::new(5)];
    two.push_all(&two_elems, &two_elems);

    v.clone_from(&three);
    assert_eq!(v, three);

    v.clone_from(&three);
    assert_eq!(v, three);

    v.clone_from(&two);
    assert_eq!(v, two);

    v.clone_from(&three);
    assert_eq!(v, three);
}

#[test]
fn test_retain() {
    let vs = [1i32, 2, 3, 4];
    let mut v = Soa2::new();
    v.push_all(&vs, &vs);
    v.retain(|x: &i32, _: &i32| x % 2i32 == 0);
    assert_eq!(v.as_slices(), (&[2, 4][..], &[2, 4][..]));
}

#[test]
fn test_zero_sized_values() {
    let mut v = Soa2::new();
    assert_eq!(v.len(), 0);
    v.push(((), ()));
    assert_eq!(v.len(), 1);
    v.push(((), ()));
    assert_eq!(v.len(), 2);
    assert_eq!(v.pop(), Some(((), ())));
    assert_eq!(v.pop(), Some(((), ())));
    assert_eq!(v.pop(), None);

    assert_eq!(v.as_slices().0.iter().count(), 0);
    v.push(((), ()));
    assert_eq!(v.as_slices().1.iter().count(), 1);
    v.push(((), ()));
    assert_eq!(v.as_slices().0.iter().count(), 2);

    for (&(), &()) in v.as_slices().0.iter().zip(v.as_slices().1.iter()) {}

    assert_eq!(v.as_slices().0.iter().count(), 2);
    v.push(((), ()));
    assert_eq!(v.as_slices().1.iter().count(), 3);
    v.push(((), ()));
    assert_eq!(v.as_slices().0.iter().count(), 4);

    v.clear();
    assert_eq!(v.as_slices().0.iter().count(), 0);
}

#[test]
fn test_zip_unzip() {
    let (z1x, z1y) = ([1i32, 2, 3], [4i32, 5, 6]);
    let mut z1 = Soa2::new();
    z1.push_all(&z1x[..], &z1y[..]);

    let (left, right) = z1.into_vecs();
    assert_eq!(&left[..], &z1x[..]);
    assert_eq!(&right[..], &z1y[..]);
}

use std::cell::Cell;
use std::rc::Rc;

#[derive(Clone)]
struct Elem(usize, Rc<Cell<usize>>);

impl Drop for Elem {
    fn drop(&mut self) {
        self.1.set(self.1.get() + 1);
    }
}

#[test]
fn test_vec_truncate_drop() {
    let drops = Rc::new(Cell::new(0usize));
    let e = |n: usize| Elem(n, drops.clone());

    let mut v = Soa2::new();
    v.push_all(
        &[e(1), e(2), e(3), e(4), e(5)][..],
        &[e(10), e(20), e(30), e(40), e(50)][..],
    );

    assert_eq!(drops.get(), 10 + 0);
    v.truncate(3);
    assert_eq!(drops.get(), 10 + 4);
    v.truncate(0);
    assert_eq!(drops.get(), 10 + 10);
}
