use soa::unadorned::{
    append_update, calc_reserve_exact_space, calc_reserve_space, extend_update,
    from_raw_bufs_update, from_raw_parts_update, insert_update, new_update, push_all_update,
    push_update, remove_update, reserve_update, shrink_to_fit_update, truncate_update,
};
use soa::unadorned::{
    AppendUpdate, ExtendUpdate, Extent, FromRawBufsUpdate, FromRawPartsUpdate, InsertUpdate,
    NewUpdate, PushAllUpdate, PushUpdate, RemoveUpdate, ReserveCalc, ReserveUpdate,
    ShrinkToFitUpdate, TruncateUpdate, Unadorned, WithCapUpdate,
};

#[test]
fn test_new_update() {
    let e = new_update(&[NewUpdate, NewUpdate]);
    assert_eq!(e, Extent { len: 0, cap: 0 });
}

#[test]
fn test_with_capacity_update() {
    let e = soa::unadorned::with_capacity_update(&[WithCapUpdate, WithCapUpdate], false, 7);
    assert_eq!(e, Extent { len: 0, cap: 7 });

    let b = soa::unadorned::with_capacity_update(&[WithCapUpdate], true, 7);
    assert_eq!(b, Extent { len: 0, cap: usize::MAX });
}

#[test]
fn test_from_raw_updates() {
    let e = from_raw_parts_update(&[FromRawPartsUpdate], 2, 8);
    assert_eq!(e, Extent { len: 2, cap: 8 });

    let f = from_raw_bufs_update(&[FromRawBufsUpdate, FromRawBufsUpdate], 5);
    assert_eq!(f, Extent { len: 5, cap: 5 });
}

#[test]
fn test_calc_reserve_space_values() {
    let roomy = Extent { len: 2, cap: 4 };
    assert!(calc_reserve_space(&roomy, 2).is_none());

    let full = Extent { len: 2, cap: 2 };
    let c = calc_reserve_space(&full, 3).unwrap();
    assert_eq!(c.0, 8);

    let c2 = calc_reserve_space(&Extent { len: 0, cap: 0 }, 2).unwrap();
    assert_eq!(c2.0, 2);

    let c3 = calc_reserve_space(&Extent { len: 17, cap: 32 }, 16).unwrap();
    assert_eq!(c3.0, 64);
}

#[test]
fn test_calc_reserve_exact_space_values() {
    let roomy = Extent { len: 2, cap: 4 };
    assert!(calc_reserve_exact_space(&roomy, 2).is_none());

    let full = Extent { len: 2, cap: 2 };
    let c = calc_reserve_exact_space(&full, 3).unwrap();
    assert_eq!(c.0, 5);
}

#[test]
fn test_commit_updates() {
    let mut e = Extent { len: 3, cap: 4 };

    reserve_update(&[ReserveUpdate, ReserveUpdate], ReserveCalc(16), &mut e);
    assert_eq!(e, Extent { len: 3, cap: 16 });

    shrink_to_fit_update(&[ShrinkToFitUpdate], &mut e);
    assert_eq!(e, Extent { len: 3, cap: 3 });

    truncate_update(&[TruncateUpdate], 1, &mut e);
    assert_eq!(e, Extent { len: 1, cap: 3 });

    insert_update(&[InsertUpdate], None, &mut e);
    assert_eq!(e, Extent { len: 2, cap: 3 });

    insert_update(&[InsertUpdate], Some(ReserveCalc(6)), &mut e);
    assert_eq!(e, Extent { len: 3, cap: 6 });

    remove_update(&[RemoveUpdate], &mut e);
    assert_eq!(e, Extent { len: 2, cap: 6 });
}

#[test]
fn test_push_update_doubling() {
    let mut e = Extent { len: 0, cap: 0 };
    push_update(&[PushUpdate], &mut e);
    assert_eq!(e, Extent { len: 1, cap: 4 });

    let mut f = Extent { len: 4, cap: 4 };
    push_update(&[PushUpdate, PushUpdate], &mut f);
    assert_eq!(f, Extent { len: 5, cap: 8 });

    let mut g = Extent { len: 2, cap: 4 };
    push_update(&[PushUpdate], &mut g);
    assert_eq!(g, Extent { len: 3, cap: 4 });
}

#[test]
fn test_append_and_push_all_updates() {
    let mut e = Extent { len: 2, cap: 8 };
    let mut o = Extent { len: 3, cap: 4 };
    append_update(&[AppendUpdate, AppendUpdate], &mut e, &mut o, None);
    assert_eq!(e, Extent { len: 5, cap: 8 });
    assert_eq!(o, Extent { len: 0, cap: 4 });

    let mut p = Extent { len: 1, cap: 1 };
    push_all_update(&[PushAllUpdate], &mut p, 3, Some(ReserveCalc(4)));
    assert_eq!(p, Extent { len: 4, cap: 4 });
}

#[test]
fn test_extend_update_commits_common_extent() {
    let target = Extent { len: 6, cap: 8 };
    let mut e = Extent { len: 2, cap: 8 };
    extend_update(&[ExtendUpdate(target), ExtendUpdate(target)], &mut e);
    assert_eq!(e, target);
}

#[test]
fn test_unadorned_column_round_trip() {
    let (col, _u) = Unadorned::from_vec(vec![1i32, 2, 3]);
    assert_eq!(col.as_slice(), &[1, 2, 3][..]);
    assert!(!col.is_boring());

    let copy = col.clone_col();
    assert_eq!(copy.as_slice(), &[1, 2, 3][..]);

    let back = col.into_vec();
    assert_eq!(back, vec![1i32, 2, 3]);

    let (unit_col, _u2) = Unadorned::<()>::new();
    assert!(unit_col.is_boring());
}
