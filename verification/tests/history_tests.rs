use zgicabra::history::History;

#[test]
fn ring_empty() {
    let h: History<u32> = History::new(4);
    assert_eq!(h.size(), 4);
    assert!(h.last().is_none());
    assert!(h.get(0).is_none());
    assert!(h.get_from_end(0).is_none());
}

#[test]
fn ring_partial_fill() {
    let mut h: History<u32> = History::new(4);
    h.push(10);
    h.push(20);
    assert_eq!(h.get(0), Some(&10));
    assert_eq!(h.get(1), Some(&20));
    assert!(h.get(2).is_none());
    assert_eq!(h.get_from_end(0), Some(&20));
    assert_eq!(h.get_from_end(1), Some(&10));
    assert!(h.get_from_end(2).is_none());
    assert_eq!(h.last(), Some(&20));
}

#[test]
fn ring_overwrites_oldest() {
    let mut h: History<u32> = History::new(3);
    for v in 1..=5u32 {
        h.push(v);
    }
    // Capacity 3, 5 pushes: the window is the last three pushes.
    assert_eq!(h.last(), Some(&5));
    assert_eq!(h.get_from_end(0), Some(&5));
    assert_eq!(h.get_from_end(1), Some(&4));
    assert_eq!(h.get_from_end(2), Some(&3));
    assert!(h.get_from_end(3).is_none());
    assert_eq!(h.get(0), Some(&3));
    assert_eq!(h.get(1), Some(&4));
    assert_eq!(h.get(2), Some(&5));
    assert!(h.get(3).is_none());
    assert_eq!(h.size(), 3);
}

#[test]
fn ring_latest_always_reflects_push() {
    let mut h: History<i64> = History::new(2);
    for v in 0..10i64 {
        h.push(v * 7);
        assert_eq!(h.get_from_end(0), Some(&(v * 7)));
        assert_eq!(h.last(), Some(&(v * 7)));
    }
}

#[test]
fn ring_capacity_one() {
    let mut h: History<u8> = History::new(1);
    h.push(1);
    h.push(2);
    assert_eq!(h.last(), Some(&2));
    assert_eq!(h.get(0), Some(&2));
    assert!(h.get(1).is_none());
}
