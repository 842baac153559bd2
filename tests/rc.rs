use rust_simple_smart_pt::{MyRc, RcArena};

#[test]
fn rc_test_1() {
    let mut arena = RcArena::new();
    let val = MyRc::new(&mut arena, 5);
    assert_eq!(*val.deref(&arena), 5);
}

#[test]
fn rc_test_2() {
    let mut arena = RcArena::new();
    let val_1 = MyRc::new(&mut arena, 5);
    let val_2 = val_1.clone(&mut arena);
    assert_eq!(*val_2.deref(&arena), 5);
}

#[test]
fn rc_test_3() {
    let mut arena = RcArena::new();
    let mut val_1 = MyRc::new(&mut arena, 5);
    assert_eq!(*val_1.deref(&arena), 5);
    let val_ref = MyRc::get_mut(&mut val_1, &mut arena);
    *val_ref.unwrap() = 2;
    assert_eq!(*val_1.deref(&arena), 2);
}

#[test]
#[should_panic]
fn rc_test_4() {
    let mut arena = RcArena::new();
    let mut val_1 = MyRc::new(&mut arena, 5);
    let val_2 = val_1.clone(&mut arena);
    MyRc::get_mut(&mut val_1, &mut arena).unwrap();
    assert_eq!(*val_2.deref(&arena), 5);
}

#[test]
fn rc_exclusive_access_after_other_handle_released() {
    let mut arena = RcArena::new();
    let mut rc1 = MyRc::new(&mut arena, 5);
    let rc2 = rc1.clone(&mut arena);
    assert!(MyRc::get_mut(&mut rc1, &mut arena).is_none());
    assert_eq!(rc2.release(&mut arena), None);
    let m = MyRc::get_mut(&mut rc1, &mut arena).unwrap();
    *m = 2;
    assert_eq!(*rc1.deref(&arena), 2);
}

#[test]
fn rc_clones_share_the_count() {
    let mut arena = RcArena::new();
    let mut first = MyRc::new(&mut arena, String::from("shared"));
    let mut clones = Vec::new();
    for _ in 0..4 {
        clones.push(first.clone(&mut arena));
    }
    // five live handles: none of them gets exclusive access
    assert!(MyRc::get_mut(&mut first, &mut arena).is_none());
    assert!(MyRc::get_mut(&mut clones[3], &mut arena).is_none());
    for c in clones.iter() {
        assert_eq!(c.deref(&arena).as_str(), "shared");
    }
    // release four of them, one at a time
    while let Some(c) = clones.pop() {
        assert_eq!(c.release(&mut arena), None);
    }
    MyRc::get_mut(&mut first, &mut arena).unwrap().push('!');
    assert_eq!(first.deref(&arena).as_str(), "shared!");
}

#[test]
fn rc_last_release_reclaims_value() {
    let mut arena = RcArena::new();
    let a = MyRc::new(&mut arena, vec![1, 2]);
    let b = a.clone(&mut arena);
    assert_eq!(a.release(&mut arena), None);
    assert_eq!(b.release(&mut arena), Some(vec![1, 2]));
}

#[test]
fn rc_allocations_are_independent() {
    let mut arena = RcArena::new();
    let mut a = MyRc::new(&mut arena, 1u32);
    let b = MyRc::new(&mut arena, 2u32);
    let b2 = b.clone(&mut arena);
    *MyRc::get_mut(&mut a, &mut arena).unwrap() = 10;
    assert_eq!(*a.deref(&arena), 10);
    assert_eq!(*b.deref(&arena), 2);
    assert_eq!(*b2.deref(&arena), 2);
    assert_eq!(a.release(&mut arena), Some(10));
    assert_eq!(b2.release(&mut arena), None);
    assert_eq!(b.release(&mut arena), Some(2));
}
