use rust_simple_smart_pt::{MyRefCell, ReferenceState};

#[test]
fn test_refcell_1() {
    let mut string = MyRefCell::new(String::from("hello"));
    {
        let g = string.borrow().unwrap();
        assert_eq!("hello", g.as_ref(&string).as_str());
        g.release(&mut string);
    }
    let w = string.borrow_mut().unwrap();
    w.as_ref_mut(&mut string).remove(0);
    w.release(&mut string);
    let g = string.borrow().unwrap();
    assert_eq!("ello", g.as_ref(&string).as_str());
    g.release(&mut string);
}

#[test]
fn test_refcell_2() {
    let mut raw_string = String::from("hello");
    let mut string = MyRefCell::new(&mut raw_string);
    {
        let g = string.borrow().unwrap();
        assert_eq!("hello", g.as_ref(&string).as_str());
        g.release(&mut string);
    }
    let w = string.borrow_mut().unwrap();
    w.as_ref_mut(&mut string).remove(0);
    w.release(&mut string);
    let g = string.borrow().unwrap();
    assert_eq!("ello", g.as_ref(&string).as_str());
    g.release(&mut string);
}

#[test]
fn refcell_two_readers_then_writer() {
    let mut cell = MyRefCell::new(5);
    let g1 = cell.borrow().unwrap();
    let g2 = cell.borrow().unwrap();
    assert_eq!(*g1.as_ref(&cell), 5);
    assert_eq!(*g2.as_ref(&cell), 5);
    g1.release(&mut cell);
    assert!(cell.borrow_mut().is_none());
    g2.release(&mut cell);
    let w = cell.borrow_mut().unwrap();
    *w.as_ref_mut(&mut cell) = 6;
    w.release(&mut cell);
    let g = cell.borrow().unwrap();
    assert_eq!(*g.as_ref(&cell), 6);
    g.release(&mut cell);
}

#[test]
fn refcell_shared_count_tracks_readers() {
    let mut cell = MyRefCell::new('a');
    assert_eq!(cell.borrow_state(), ReferenceState::Unshared);
    let mut guards = Vec::new();
    for n in 1..=4usize {
        guards.push(cell.borrow().unwrap());
        assert_eq!(cell.borrow_state(), ReferenceState::Shared(n));
    }
    for n in (0..4usize).rev() {
        guards.pop().unwrap().release(&mut cell);
        if n == 0 {
            assert_eq!(cell.borrow_state(), ReferenceState::Unshared);
        } else {
            assert_eq!(cell.borrow_state(), ReferenceState::Shared(n));
        }
    }
}

#[test]
fn refcell_write_guard_excludes_all() {
    let mut cell = MyRefCell::new(vec![0u8]);
    let w = cell.borrow_mut().unwrap();
    assert_eq!(cell.borrow_state(), ReferenceState::Exclusive);
    assert!(cell.borrow().is_none());
    assert!(cell.borrow_mut().is_none());
    assert_eq!(cell.borrow_state(), ReferenceState::Exclusive);
    w.as_ref_mut(&mut cell).push(1);
    w.release(&mut cell);
    assert_eq!(cell.borrow_state(), ReferenceState::Unshared);
    let g = cell.borrow().unwrap();
    assert_eq!(g.as_ref(&cell), &vec![0u8, 1]);
    g.release(&mut cell);
    let w = cell.borrow_mut().unwrap();
    w.release(&mut cell);
}

#[test]
fn refcell_reader_excludes_writer() {
    let mut cell = MyRefCell::new(1u64);
    let g = cell.borrow().unwrap();
    assert!(cell.borrow_mut().is_none());
    assert_eq!(cell.borrow_state(), ReferenceState::Shared(1));
    g.release(&mut cell);
    assert!(cell.borrow_mut().is_some());
}

#[test]
fn reference_state_read_requests() {
    assert_eq!(ReferenceState::Unshared.request_read(), Some(ReferenceState::Shared(1)));
    assert_eq!(ReferenceState::Shared(3).request_read(), Some(ReferenceState::Shared(4)));
    assert_eq!(ReferenceState::Exclusive.request_read(), None);
    assert_eq!(ReferenceState::Shared(usize::MAX).request_read(), None);
}

#[test]
fn reference_state_write_requests() {
    assert_eq!(ReferenceState::Unshared.request_write(), Some(ReferenceState::Exclusive));
    assert_eq!(ReferenceState::Shared(1).request_write(), None);
    assert_eq!(ReferenceState::Exclusive.request_write(), None);
}

#[test]
fn reference_state_releases() {
    assert_eq!(ReferenceState::Shared(1).release_read(), ReferenceState::Unshared);
    assert_eq!(ReferenceState::Shared(5).release_read(), ReferenceState::Shared(4));
    assert_eq!(ReferenceState::Exclusive.release_write(), ReferenceState::Unshared);
}
