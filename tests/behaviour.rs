use vecbool::VecBool;

#[test]
fn new_holds_no_chunk() {
    let v = VecBool::new();
    assert_eq!(v.len(), 0);
    assert_eq!(v.capacity(), 0);
    assert_eq!(v.iter().count(), 0);
}

#[test]
fn with_capacity_reserves_chunks() {
    let v = VecBool::with_capacity(32);
    assert_eq!(v.len(), 0);
    assert!(v.capacity() >= 32);
    assert_eq!(v.capacity(), 40);
    assert_eq!(v.get(0), None);
    assert_eq!(v.iter().count(), 0);
    let w = VecBool::with_capacity(0);
    assert_eq!(w.capacity(), 8);
}

#[test]
fn with_capacity_then_push_and_pop() {
    let mut v = VecBool::with_capacity(8);
    assert_eq!(v.capacity(), 16);
    for i in 0..9 {
        v.push(i % 2 == 0);
    }
    assert_eq!(v.capacity(), 16);
    assert_eq!(v.iter().collect::<Vec<_>>(), (0..9).map(|i| i % 2 == 0).collect::<Vec<_>>());
    assert_eq!(v.pop(), Some(true));
    assert_eq!(v.capacity(), 8);
    assert_eq!(v.len(), 8);
}

#[test]
fn with_zeros_sizes_storage() {
    let v = VecBool::with_zeros(16);
    assert_eq!(v.len(), 16);
    assert_eq!(v.capacity(), 24);
    let w = VecBool::with_zeros(5);
    assert_eq!(w.len(), 5);
    assert_eq!(w.capacity(), 8);
    let e = VecBool::with_zeros(0);
    assert_eq!(e.len(), 0);
    assert_eq!(e.capacity(), 8);
    assert_eq!(e.get(0), None);
}

#[test]
fn push_reads_back_each_value() {
    let values = [true, false, false, true, true, true, false, true, false, true, true];
    let mut v = VecBool::new();
    for (i, &b) in values.iter().enumerate() {
        v.push(b);
        assert_eq!(v.get(i), Some(b));
    }
    for (i, &b) in values.iter().enumerate() {
        assert_eq!(v.get(i), Some(b));
    }
    assert_eq!(v.len(), values.len());
}

#[test]
fn length_never_exceeds_capacity() {
    let mut v = VecBool::with_zeros(7);
    for i in 0..40 {
        v.push(i % 2 == 0);
        assert!(v.len() <= v.capacity());
        assert_eq!(v.capacity() % 8, 0);
    }
    for _ in 0..47 {
        v.pop();
        assert!(v.len() <= v.capacity());
    }
    assert_eq!(v.len(), 0);
    assert_eq!(v.pop(), None);
}

#[test]
fn pop_after_push_restores_length() {
    let mut v = VecBool::with_zeros(3);
    v.push(true);
    assert_eq!(v.pop(), Some(true));
    assert_eq!(v.len(), 3);
    v.push(false);
    assert_eq!(v.pop(), Some(false));
    assert_eq!(v.len(), 3);
    assert_eq!(v.iter().collect::<Vec<_>>(), vec![false, false, false]);
}

#[test]
fn out_of_range_access_changes_nothing() {
    let mut v = VecBool::new();
    v.push(true);
    v.push(true);
    assert_eq!(v.get(2), None);
    assert_eq!(v.get(100), None);
    assert!(!v.set(2, false));
    assert!(!v.set(usize::MAX, false));
    assert_eq!(v.len(), 2);
    assert_eq!(v.capacity(), 8);
    assert_eq!(v.iter().collect::<Vec<_>>(), vec![true, true]);
    assert!(v.set(1, false));
    assert_eq!(v.get(1), Some(false));
}

#[test]
fn pop_releases_chunk_on_boundary() {
    let mut v = VecBool::new();
    for _ in 0..9 {
        v.push(true);
    }
    assert_eq!(v.capacity(), 16);
    // Length 9 down to 8: the last chunk held only the popped bit.
    assert_eq!(v.pop(), Some(true));
    assert_eq!(v.capacity(), 8);
    // Length 8 down to 7: the chunk still holds elements.
    assert_eq!(v.pop(), Some(true));
    assert_eq!(v.capacity(), 8);
    for _ in 0..6 {
        v.pop();
    }
    assert_eq!(v.len(), 1);
    assert_eq!(v.capacity(), 8);
    assert_eq!(v.pop(), Some(true));
    assert_eq!(v.capacity(), 0);
}

#[test]
fn zeros_keep_extra_chunk_until_boundary() {
    let mut v = VecBool::with_zeros(8);
    assert_eq!(v.capacity(), 16);
    assert_eq!(v.pop(), Some(false));
    assert_eq!(v.capacity(), 16);
    for _ in 0..6 {
        v.pop();
    }
    assert_eq!(v.len(), 1);
    assert_eq!(v.pop(), Some(false));
    assert_eq!(v.capacity(), 8);
}

#[test]
fn iteration_stops_inside_partial_chunk() {
    let mut v = VecBool::new();
    for i in 0..11 {
        v.push(i % 4 == 1);
    }
    let items: Vec<bool> = v.iter().collect();
    assert_eq!(items.len(), 11);
    for (i, b) in items.iter().enumerate() {
        assert_eq!(v.get(i), Some(*b));
    }
    v.set_unchecked(12, true);
    assert_eq!(v.iter().count(), 11);
}

#[test]
fn unchecked_access_reaches_stale_slots() {
    let mut v = VecBool::new();
    v.push(true);
    v.push(true);
    assert_eq!(v.pop(), Some(true));
    assert_eq!(v.get(1), None);
    assert!(v.get_unchecked(1));
    v.set_unchecked(1, false);
    assert!(!v.get_unchecked(1));
    v.set_unchecked(0, false);
    assert_eq!(v.get(0), Some(false));
    assert!(v.get_unchecked(0) == false);
}

#[test]
fn set_then_iterate_scenario() {
    let mut v = VecBool::new();
    v.push(true);
    v.push(false);
    assert_eq!(v.iter().collect::<Vec<_>>(), vec![true, false]);
    assert!(v.set(0, false));
    assert!(v.set(1, true));
    assert_eq!(v.iter().collect::<Vec<_>>(), vec![false, true]);
    assert_eq!(v.pop(), Some(true));
    assert_eq!(v.pop(), Some(false));
    assert_eq!(v.pop(), None);
    assert_eq!(v.iter().collect::<Vec<_>>(), Vec::<bool>::new());
}

#[test]
fn thirty_two_pushes_fill_four_chunks() {
    let mut v = VecBool::new();
    for i in 0..32 {
        v.push(i % 3 == 0);
    }
    assert_eq!(v.capacity(), 32);
    assert_eq!(
        v.iter().collect::<Vec<_>>(),
        (0..32).map(|i| i % 3 == 0).collect::<Vec<_>>()
    );
    v.push(false);
    assert_eq!(v.capacity(), 40);
}
