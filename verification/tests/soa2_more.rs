use soa::{Soa2, Soa3, Soa4};

#[test]
fn test_push_pop_length_accounting() {
    // Three pushes and one pop leave two elements; a pop on the emptied
    // container returns nothing and does not count.
    let mut v: Soa2<u32, u64> = Soa2::new();
    let mut pushes = 0i64;
    let mut returning_pops = 0i64;

    for i in 0..3u32 {
        v.push((i, i as u64));
        pushes += 1;
        assert_eq!(v.len() as i64, pushes - returning_pops);
        assert_eq!(v.as_slices().0.len(), v.len());
        assert_eq!(v.as_slices().1.len(), v.len());
    }
    while let Some(_t) = v.pop() {
        returning_pops += 1;
        assert_eq!(v.len() as i64, pushes - returning_pops);
        assert_eq!(v.as_slices().0.len(), v.len());
        assert_eq!(v.as_slices().1.len(), v.len());
    }
    assert_eq!(v.pop(), None);
    assert_eq!(v.len() as i64, pushes - returning_pops);
    assert_eq!(pushes, 3);
    assert_eq!(returning_pops, 3);
}

#[test]
fn test_push_then_pop_round_trip() {
    let mut v: Soa2<i32, &str> = Soa2::new();
    v.push((7, "seven"));
    v.push((8, "eight"));
    assert_eq!(v.pop(), Some((8, "eight")));
    assert_eq!(v.as_slices(), (&[7][..], &["seven"][..]));
}

#[test]
fn test_reserve_exact_value() {
    let mut v: Soa2<u8, u8> = Soa2::new();
    v.reserve_exact(5);
    assert_eq!(v.capacity(), 5);
    assert_eq!(v.len(), 0);
    v.reserve_exact(3);
    assert_eq!(v.capacity(), 5);
}

#[test]
fn test_reserve_rounds_to_power_of_two() {
    let mut v: Soa2<u8, u8> = Soa2::new();
    v.reserve(5);
    assert_eq!(v.capacity(), 8);
    assert_eq!(v.len(), 0);
    let before = v.capacity();
    v.reserve(2);
    assert_eq!(v.capacity(), before);
}

#[test]
fn test_push_doubles_capacity() {
    let mut v: Soa2<u8, u8> = Soa2::new();
    v.push((1, 1));
    assert_eq!(v.capacity(), 4);
    for i in 2..=4u8 {
        v.push((i, i));
    }
    assert_eq!(v.capacity(), 4);
    v.push((5, 5));
    assert_eq!(v.capacity(), 8);
}

#[test]
fn test_truncate_noop_and_shrink() {
    let mut v: Soa2<i32, i32> = Soa2::new();
    v.push_all(&[1, 2, 3], &[4, 5, 6]);
    let cap = v.capacity();

    v.truncate(7);
    assert_eq!(v.len(), 3);
    assert_eq!(v.capacity(), cap);

    v.truncate(1);
    assert_eq!(v.len(), 1);
    assert_eq!(v.capacity(), cap);
    assert_eq!(v.as_slices(), (&[1][..], &[4][..]));

    v.shrink_to_fit();
    assert_eq!(v.capacity(), 1);
    assert_eq!(v.as_slices(), (&[1][..], &[4][..]));
}

#[test]
fn test_insert_remove_round_trip() {
    let mut v: Soa2<i32, i32> = Soa2::new();
    v.push_all(&[1, 2, 3], &[10, 20, 30]);
    let len = v.len();

    v.insert(1, (9, 90));
    assert_eq!(v.as_slices(), (&[1, 9, 2, 3][..], &[10, 90, 20, 30][..]));

    let t = v.remove(1);
    assert_eq!(t, (9, 90));
    assert_eq!(v.len(), len);
    assert_eq!(v.as_slices(), (&[1, 2, 3][..], &[10, 20, 30][..]));
}

#[test]
fn test_swap_remove_order() {
    let mut v: Soa2<i32, i32> = Soa2::new();
    v.push_all(&[1, 2, 3], &[10, 20, 30]);

    let t = v.swap_remove(0);
    assert_eq!(t, (1, 10));
    assert_eq!(v.as_slices(), (&[3, 2][..], &[30, 20][..]));
}

#[test]
fn test_append_moves_all() {
    let mut a: Soa2<i32, i32> = Soa2::new();
    let mut b: Soa2<i32, i32> = Soa2::new();
    a.push_all(&[1, 2], &[10, 20]);
    b.push_all(&[3, 4, 5], &[30, 40, 50]);
    let b_cap = b.capacity();

    a.append(&mut b);

    assert_eq!(a.len(), 5);
    assert_eq!(b.len(), 0);
    assert!(b.is_empty());
    assert_eq!(b.capacity(), b_cap);
    assert_eq!(a.as_slices(), (&[1, 2, 3, 4, 5][..], &[10, 20, 30, 40, 50][..]));
}

#[test]
fn test_zero_sized_bulk() {
    let v: Soa2<(), ()> = Soa2::with_capacity(5);
    assert_eq!(v.capacity(), usize::MAX);

    let mut v: Soa2<(), ()> = Soa2::new();
    for _i in 0..10_000usize {
        v.push(((), ()));
    }
    assert_eq!(v.len(), 10_000);
    assert_eq!(v.pop(), Some(((), ())));
    assert_eq!(v.len(), 9_999);
}

#[test]
fn test_from_vecs_into_vecs() {
    let v = Soa2::from_vecs(vec![1u8, 2, 3], vec![4u8, 5, 6]);
    assert_eq!(v.len(), 3);
    assert_eq!(v.capacity(), 3);
    assert!(!v.is_empty());

    let (a, b) = v.into_vecs();
    assert_eq!(a, vec![1u8, 2, 3]);
    assert_eq!(b, vec![4u8, 5, 6]);
}

#[test]
fn test_from_iters_matches_pushes() {
    let v = Soa2::from_iters(vec![1i32, 2, 3], vec![4i32, 5, 6]);
    let mut w = Soa2::new();
    w.push((1, 4));
    w.push((2, 5));
    w.push((3, 6));
    assert_eq!(v, w);
}

#[test]
fn test_resize_grows_and_shrinks() {
    let mut v: Soa2<i32, i32> = Soa2::new();
    v.push_all(&[1, 2], &[10, 20]);

    v.resize(4, (9, 90));
    assert_eq!(v.as_slices(), (&[1, 2, 9, 9][..], &[10, 20, 90, 90][..]));

    v.resize(1, (0, 0));
    assert_eq!(v.as_slices(), (&[1][..], &[10][..]));
    assert_eq!(v.len(), 1);
}

#[test]
fn test_clear_keeps_capacity() {
    let mut v: Soa2<i32, i32> = Soa2::new();
    v.push_all(&[1, 2, 3], &[4, 5, 6]);
    let cap = v.capacity();
    v.clear();
    assert_eq!(v.len(), 0);
    assert_eq!(v.capacity(), cap);
}

#[test]
fn test_default_and_eq() {
    let v: Soa2<i32, i32> = Default::default();
    assert_eq!(v.len(), 0);
    assert_eq!(v.capacity(), 0);

    let mut w: Soa2<i32, i32> = Soa2::new();
    assert_eq!(v, w);
    w.push((1, 2));
    assert!(v != w);
}

#[test]
fn test_zero_sized_capacity_is_untouched() {
    // For a container of only zero-sized types the capacity is not
    // meaningful: growing it is a no-op, so a freshly built container keeps
    // capacity 0 however much is pushed or reserved.
    let mut v: Soa2<(), ()> = Soa2::new();
    for _i in 0..3usize {
        v.push(((), ()));
    }
    assert_eq!(v.capacity(), 0);
    v.reserve(10);
    assert_eq!(v.capacity(), 0);
    assert_eq!(v.len(), 3);
    v.reserve_exact(10);
    assert_eq!(v.capacity(), 0);
    v.shrink_to_fit();
    assert_eq!(v.len(), 3);
}

#[test]
fn test_zero_sized_truncate() {
    let mut v: Soa2<(), ()> = Soa2::new();
    for _i in 0..5usize {
        v.push(((), ()));
    }
    v.truncate(2);
    assert_eq!(v.len(), 2);
    v.truncate(9);
    assert_eq!(v.len(), 2);
}

#[test]
fn test_zip_iter_pairs() {
    let mut v: Soa2<i32, i32> = Soa2::new();
    v.push_all(&[1, 2, 3], &[4, 5, 6]);
    let pairs: Vec<(i32, i32)> = v.zip_iter().into_iter().map(|(a, b)| (*a, *b)).collect();
    assert_eq!(pairs, vec![(1, 4), (2, 5), (3, 6)]);

    let mut w: Soa3<u8, u8, u8> = Soa3::new();
    w.push((1, 2, 3));
    let triples: Vec<(u8, u8, u8)> =
        w.zip_iter().into_iter().map(|(a, b, c)| (*a, *b, *c)).collect();
    assert_eq!(triples, vec![(1, 2, 3)]);

    let mut z: Soa4<u8, u8, u8, u8> = Soa4::new();
    z.push((1, 2, 3, 4));
    let quads: Vec<(u8, u8, u8, u8)> =
        z.zip_iter().into_iter().map(|(a, b, c, d)| (*a, *b, *c, *d)).collect();
    assert_eq!(quads, vec![(1, 2, 3, 4)]);
}

#[test]
fn test_is_boring() {
    let v: Soa2<(), ()> = Soa2::new();
    assert!(v.is_boring());
    let w: Soa2<i32, ()> = Soa2::new();
    assert!(!w.is_boring());
}
