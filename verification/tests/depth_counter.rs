use bench_utils::DepthCounter;

#[test]
fn starts_at_zero() {
    let c = DepthCounter::new();
    assert_eq!(c.current(), 0);
}

#[test]
fn increment_reports_previous_depth() {
    let mut c = DepthCounter::new();
    assert_eq!(c.increment_and_get_previous(), 0);
    assert_eq!(c.increment_and_get_previous(), 1);
    assert_eq!(c.increment_and_get_previous(), 2);
    assert_eq!(c.current(), 3);
}

#[test]
fn balanced_nesting_returns_to_zero() {
    let mut c = DepthCounter::new();
    c.increment_and_get_previous();
    c.increment_and_get_previous();
    c.decrement();
    c.decrement();
    assert_eq!(c.current(), 0);
}

#[test]
fn interleaved_scopes_return_to_zero() {
    let mut c = DepthCounter::new();
    c.increment_and_get_previous();
    c.increment_and_get_previous();
    c.decrement();
    c.increment_and_get_previous();
    c.decrement();
    c.decrement();
    assert_eq!(c.current(), 0);
}

#[test]
fn decrement_saturates_at_zero() {
    let mut c = DepthCounter::new();
    c.decrement();
    assert_eq!(c.current(), 0);
}
