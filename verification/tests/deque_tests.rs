use ring_deque::deque::Deque;

#[test]
fn push_pop() {
    let mut d = Deque::new();
    assert_eq!(d.len(), 0);
    assert_eq!(d.front(), None);
    assert_eq!(d.back(), None);

    d.push_back(1);
    d.push_back(2);
    // [1, 2]
    assert_eq!(d.len(), 2);
    assert_eq!(d.front(), Some(&1));
    assert_eq!(d.back(), Some(&2));

    d.push_front(3);
    d.push_front(4);
    // [4, 3, 1, 2]
    assert_eq!(d.len(), 4);
    assert_eq!(d.front(), Some(&4));
    assert_eq!(d.back(), Some(&2));

    assert_eq!(d.pop_front(), Some(4));
    assert_eq!(d.pop_front(), Some(3));
    assert_eq!(d.pop_front(), Some(1));
    assert_eq!(d.pop_front(), Some(2));
    assert_eq!(d.pop_front(), None);
    assert_eq!(d.len(), 0);
    assert_eq!(d.front(), None);
    assert_eq!(d.back(), None);

    d.push_front(5);
    d.push_front(6);
    // [6, 5]
    assert_eq!(d.len(), 2);
    assert_eq!(d.front(), Some(&6));
    assert_eq!(d.back(), Some(&5));

    assert_eq!(d.pop_back(), Some(5));
    assert_eq!(d.pop_back(), Some(6));
    assert_eq!(d.pop_back(), None);
    assert_eq!(d.len(), 0);
    assert_eq!(d.front(), None);
    assert_eq!(d.back(), None);
}

#[test]
fn len_counts_pushes_and_successful_pops() {
    let mut d = Deque::new();
    assert_eq!(d.len(), 0);
    // Pops on an empty deque return no value and do not decrement.
    assert_eq!(d.pop_front(), None);
    assert_eq!(d.pop_back(), None);
    assert_eq!(d.len(), 0);

    d.push_front(7);
    assert_eq!(d.len(), 1);
    d.push_back(8);
    assert_eq!(d.len(), 2);
    assert_eq!(d.pop_back(), Some(8));
    assert_eq!(d.len(), 1);
    assert_eq!(d.pop_back(), Some(7));
    assert_eq!(d.len(), 0);
    assert_eq!(d.pop_back(), None);
    // Two pushes, two successful pops: the length is back to zero.
    assert_eq!(d.len(), 0);
}

#[test]
fn is_empty_iff_len_zero() {
    let mut d = Deque::new();
    assert!(d.is_empty());
    assert_eq!(d.len(), 0);

    d.push_back(1);
    assert!(!d.is_empty());
    assert_eq!(d.len(), 1);

    d.push_front(2);
    assert!(!d.is_empty());
    assert_eq!(d.len(), 2);

    d.pop_front();
    d.pop_back();
    assert!(d.is_empty());
    assert_eq!(d.len(), 0);
}

#[test]
fn fifo_push_back_pop_front() {
    let mut d = Deque::new();
    for i in 0..10 {
        d.push_back(i);
    }
    assert_eq!(d.len(), 10);
    for i in 0..10 {
        assert_eq!(d.pop_front(), Some(i));
    }
    assert_eq!(d.pop_front(), None);
}

#[test]
fn lifo_push_front_pop_front() {
    let mut d = Deque::new();
    for i in 1..=6 {
        d.push_front(i);
    }
    for i in (1..=6).rev() {
        assert_eq!(d.pop_front(), Some(i));
    }
    assert_eq!(d.pop_front(), None);
}

#[test]
fn push_front_pop_back_drains_in_push_order() {
    let mut d = Deque::new();
    for i in 1..=5 {
        d.push_front(i);
    }
    for i in 1..=5 {
        assert_eq!(d.pop_back(), Some(i));
    }
    assert_eq!(d.pop_back(), None);
}

#[test]
fn push_back_pop_back_drains_in_reverse_order() {
    let mut d = Deque::new();
    for i in 1..=5 {
        d.push_back(i);
    }
    for i in (1..=5).rev() {
        assert_eq!(d.pop_back(), Some(i));
    }
    assert_eq!(d.pop_back(), None);
}

#[test]
fn growth_preserves_order_and_values() {
    // Push past the single usable slot of the initial block several times
    // over; growth must keep every value and the order intact.
    let mut d = Deque::new();
    for i in 0..33 {
        d.push_back(i);
    }
    assert_eq!(d.len(), 33);
    for i in 0..33 {
        assert_eq!(d.pop_front(), Some(i));
    }
    assert!(d.is_empty());
}

#[test]
fn growth_preserves_order_when_region_wraps() {
    // Interleave pops and pushes so that the live region wraps around the
    // end of the block when growth happens.
    let mut d = Deque::new();
    for i in 0..4 {
        d.push_back(i);
    }
    assert_eq!(d.pop_front(), Some(0));
    assert_eq!(d.pop_front(), Some(1));
    for i in 4..10 {
        d.push_back(i);
    }
    assert_eq!(d.len(), 8);
    for i in 2..10 {
        assert_eq!(d.pop_front(), Some(i));
    }
    assert_eq!(d.pop_front(), None);
}

#[test]
fn front_back_idempotent_and_none_iff_empty() {
    let mut d = Deque::new();
    assert!(d.is_empty());
    assert_eq!(d.front(), None);
    assert_eq!(d.front(), None);
    assert_eq!(d.back(), None);
    assert_eq!(d.back(), None);

    d.push_back(1);
    d.push_back(2);
    assert_eq!(d.front(), Some(&1));
    assert_eq!(d.front(), Some(&1));
    assert_eq!(d.back(), Some(&2));
    assert_eq!(d.back(), Some(&2));
    assert!(!d.is_empty());
}

#[test]
fn front_pushes_then_back_pops() {
    let mut d = Deque::new();
    d.push_front(5);
    d.push_front(6);
    assert_eq!(d.front(), Some(&6));
    assert_eq!(d.back(), Some(&5));
    assert_eq!(d.pop_back(), Some(5));
    assert_eq!(d.pop_back(), Some(6));
    assert_eq!(d.pop_back(), None);
    assert_eq!(d.len(), 0);
}
