use soa::{Soa3, Soa4};

#[test]
fn test_soa3_push_pop() {
    let mut v: Soa3<i32, &str, bool> = Soa3::new();
    v.push((1, "one", true));
    v.push((2, "two", false));
    assert_eq!(v.len(), 2);
    assert_eq!(v.pop(), Some((2, "two", false)));
    assert_eq!(v.pop(), Some((1, "one", true)));
    assert_eq!(v.pop(), None);
}

#[test]
fn test_soa3_insert_remove() {
    let mut v: Soa3<i32, i32, i32> = Soa3::new();
    v.push_all(&[1, 2], &[10, 20], &[100, 200]);
    v.insert(0, (0, 0, 0));
    assert_eq!(v.as_slices(), (&[0, 1, 2][..], &[0, 10, 20][..], &[0, 100, 200][..]));
    assert_eq!(v.remove(1), (1, 10, 100));
    assert_eq!(v.swap_remove(0), (0, 0, 0));
    assert_eq!(v.as_slices(), (&[2][..], &[20][..], &[200][..]));
}

#[test]
fn test_soa3_retain_clone() {
    let mut v: Soa3<i32, i32, i32> = Soa3::new();
    v.push_all(&[1, 2, 3, 4], &[1, 2, 3, 4], &[1, 2, 3, 4]);
    v.retain(|x: &i32, _: &i32, _: &i32| x % 2 == 0);
    assert_eq!(v.as_slices(), (&[2, 4][..], &[2, 4][..], &[2, 4][..]));

    let w = v.clone();
    assert_eq!(v, w);

    let mut z = Soa3::new();
    z.clone_from(&w);
    assert_eq!(z, w);
}

#[test]
fn test_soa3_reserve_extend() {
    let mut v: Soa3<u8, u8, u8> = Soa3::new();
    v.reserve(3);
    assert_eq!(v.capacity(), 4);
    v.extend(vec![1, 2], vec![3, 4], vec![5, 6]);
    assert_eq!(v.len(), 2);
    assert_eq!(v.capacity(), 4);

    let w = Soa3::from_iters(vec![1u8, 2], vec![3u8, 4], vec![5u8, 6]);
    assert_eq!(v, w);

    let (a, b, c) = w.into_vecs();
    assert_eq!(a, vec![1u8, 2]);
    assert_eq!(b, vec![3u8, 4]);
    assert_eq!(c, vec![5u8, 6]);
}

#[test]
fn test_soa4_push_pop() {
    let mut v: Soa4<i32, i32, i32, i32> = Soa4::new();
    v.push((1, 2, 3, 4));
    v.push((5, 6, 7, 8));
    assert_eq!(v.len(), 2);
    assert_eq!(v.pop(), Some((5, 6, 7, 8)));
    assert_eq!(v.pop(), Some((1, 2, 3, 4)));
    assert_eq!(v.pop(), None);
}

#[test]
fn test_soa4_bulk_ops() {
    let mut v: Soa4<i32, i32, i32, i32> = Soa4::new();
    v.push_all(&[1, 2, 3], &[4, 5, 6], &[7, 8, 9], &[10, 11, 12]);
    assert_eq!(v.len(), 3);

    let mut w = v.clone();
    assert_eq!(v, w);

    v.truncate(1);
    assert_eq!(v.as_slices(), (&[1][..], &[4][..], &[7][..], &[10][..]));

    v.append(&mut w);
    assert_eq!(v.len(), 4);
    assert_eq!(w.len(), 0);
    assert_eq!(v.as_slices().0, &[1, 1, 2, 3][..]);

    v.retain(|a: &i32, _: &i32, _: &i32, _: &i32| *a > 1);
    assert_eq!(v.as_slices(), (&[2, 3][..], &[5, 6][..], &[8, 9][..], &[11, 12][..]));
}

#[test]
fn test_soa4_resize_from_vecs() {
    let mut v = Soa4::from_vecs(vec![1u8], vec![2u8], vec![3u8], vec![4u8]);
    assert_eq!(v.capacity(), 1);
    v.resize(3, (9, 9, 9, 9));
    assert_eq!(v.as_slices(), (&[1, 9, 9][..], &[2, 9, 9][..], &[3, 9, 9][..], &[4, 9, 9][..]));
    v.resize(0, (0, 0, 0, 0));
    assert!(v.is_empty());
}

#[test]
fn test_soa4_zero_sized() {
    let mut v: Soa4<(), (), (), ()> = Soa4::new();
    for _i in 0..100usize {
        v.push(((), (), (), ()));
    }
    assert_eq!(v.len(), 100);
    assert!(v.is_boring());
    assert_eq!(v.pop(), Some(((), (), (), ())));
}
