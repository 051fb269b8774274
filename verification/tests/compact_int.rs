use panicless::CompactIntArray;

#[test]
fn width_round_trip() {
    // The representation widens 8 -> 16 -> 32 -> 64 as the values demand,
    // and every value reads back exactly.
    let mut a = CompactIntArray::new();
    assert_eq!(a.width(), 8);

    a.push(10);
    assert_eq!(a.width(), 8);
    a.push(300);
    assert_eq!(a.width(), 16);
    a.push(70000);
    assert_eq!(a.width(), 32);
    a.push(5_000_000_000);
    assert_eq!(a.width(), 64);

    assert_eq!(a.get(0), Some(10));
    assert_eq!(a.get(1), Some(300));
    assert_eq!(a.get(2), Some(70000));
    assert_eq!(a.get(3), Some(5_000_000_000));
    assert_eq!(a.len(), 4);
}

#[test]
fn width_only_ever_increases() {
    let mut a = CompactIntArray::new();
    let mut last_width: u32 = a.width();
    let values: [u64; 8] = [1, 70000, 2, 3, 300, 4, 5_000_000_000, 0];
    for v in values {
        a.push(v);
        assert!(a.width() >= last_width);
        last_width = a.width();
    }
    for (i, v) in values.iter().enumerate() {
        assert_eq!(a.get(i), Some(*v));
    }
}

#[test]
fn skipping_a_width() {
    // A huge value upgrades straight past the intermediate widths.
    let mut a = CompactIntArray::new();
    a.push(1);
    a.push(2);
    assert_eq!(a.width(), 8);
    a.push(u64::MAX);
    assert_eq!(a.width(), 64);
    assert_eq!(a.get(0), Some(1));
    assert_eq!(a.get(1), Some(2));
    assert_eq!(a.get(2), Some(u64::MAX));
}

#[test]
fn boundary_values_pick_the_narrowest_width() {
    let mut a = CompactIntArray::new();
    a.push(255);
    assert_eq!(a.width(), 8);
    a.push(256);
    assert_eq!(a.width(), 16);
    a.push(65535);
    assert_eq!(a.width(), 16);
    a.push(65536);
    assert_eq!(a.width(), 32);
    a.push(4_294_967_295);
    assert_eq!(a.width(), 32);
    a.push(4_294_967_296);
    assert_eq!(a.width(), 64);
}

#[test]
fn compact_get_out_of_range_is_absent() {
    let mut a = CompactIntArray::new();
    assert_eq!(a.get(0), None);
    a.push(42);
    assert_eq!(a.get(0), Some(42));
    assert_eq!(a.get(1), None);
    assert_eq!(a.len(), 1);
}

#[test]
fn reading_never_changes_the_width() {
    let mut a = CompactIntArray::new();
    a.push(300);
    assert_eq!(a.width(), 16);
    for _ in 0..10 {
        assert_eq!(a.get(0), Some(300));
        assert_eq!(a.width(), 16);
    }
}
