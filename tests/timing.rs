use crucible::duration_compare;

#[test]
pub fn test_duration_compare() {
    assert_eq!(duration_compare(4000, 2000, None) / 1000, 2);
    assert_eq!(duration_compare(2000, 4000, Some(0)) / 1000, 0);
    assert_eq!(duration_compare(2000, 4000, Some(-1000)) / 1000, 0);
    assert_eq!(duration_compare(2000, 4000, Some(2100)) / 1000, 2);
}

#[test]
fn clamped_subtract_examples() {
    assert_eq!(duration_compare(2000, 4000, None), 0);
    assert_eq!(duration_compare(2000, 4000, Some(2100)), 2100);
    assert_eq!(duration_compare(4000, 2000, None), 2000);
}

#[test]
fn clamped_subtract_equal_and_extremes() {
    assert_eq!(duration_compare(5000, 5000, Some(700)), 0);
    assert_eq!(duration_compare(u64::MAX, 0, None), u64::MAX);
    assert_eq!(duration_compare(0, u64::MAX, Some(i64::MAX)), i64::MAX as u64);
    assert_eq!(duration_compare(0, 1, Some(i64::MIN)), 0);
}
