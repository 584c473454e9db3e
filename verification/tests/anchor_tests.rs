use cube_autotune::anchor::anchor;

#[test]
fn anchor_rounds_to_the_nearest_power_of_two() {
    assert_eq!(anchor(0, None, None), 0);
    assert_eq!(anchor(1, None, None), 1);
    assert_eq!(anchor(2, None, None), 2);
    assert_eq!(anchor(3, None, None), 4);
    assert_eq!(anchor(5, None, None), 4);
    assert_eq!(anchor(6, None, None), 8);
    assert_eq!(anchor(31, None, None), 32);
    assert_eq!(anchor(32, None, None), 32);
    assert_eq!(anchor(33, None, None), 32);
    assert_eq!(anchor(47, None, None), 32);
    assert_eq!(anchor(48, None, None), 64);
    assert_eq!(anchor(1024, None, None), 1024);
}

#[test]
fn anchor_respects_the_bounds() {
    assert_eq!(anchor(1000, Some(256), None), 256);
    assert_eq!(anchor(100, Some(256), None), 128);
    assert_eq!(anchor(3, None, Some(16)), 16);
    assert_eq!(anchor(100, Some(64), Some(80)), 80);
    assert_eq!(anchor(usize::MAX, None, None), usize::MAX);
    assert_eq!(anchor(usize::MAX / 2 + 1, None, None), usize::MAX / 2 + 1);
}

#[test]
fn anchor_is_monotonic_on_a_range() {
    let mut previous = 0;
    for x in 0..5000usize {
        let a = anchor(x, None, None);
        assert!(previous <= a);
        previous = a;
    }
}
