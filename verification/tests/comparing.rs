use guessing_game::compare::{compare, ComparisonResult};

#[test]
fn compare_reports_less() {
    assert_eq!(compare(10, 50), ComparisonResult::Less);
    assert_eq!(compare(0, 1), ComparisonResult::Less);
    assert_eq!(compare(0, u32::MAX), ComparisonResult::Less);
}

#[test]
fn compare_reports_greater() {
    assert_eq!(compare(90, 50), ComparisonResult::Greater);
    assert_eq!(compare(1, 0), ComparisonResult::Greater);
    assert_eq!(compare(u32::MAX, 0), ComparisonResult::Greater);
}

#[test]
fn compare_reports_equal_on_same_value() {
    assert_eq!(compare(50, 50), ComparisonResult::Equal);
    assert_eq!(compare(0, 0), ComparisonResult::Equal);
    assert_eq!(compare(u32::MAX, u32::MAX), ComparisonResult::Equal);
}
