use bench_utils::DepthCounter;
use bench_utils::noop;

#[test]
fn creation_and_disposal_produce_nothing() {
    let mut c = DepthCounter::new();
    let (mut g, start) = noop::timer_start(&mut c, String::from("anything"), false);
    assert!(start.is_none());
    assert_eq!(c.current(), 0);
    assert!(noop::timer_end(&mut c, &mut g, false).is_none());
    assert_eq!(c.current(), 0);
    assert!(noop::timer_end_with(&mut c, &mut g, "suffix", true).is_none());
    assert_eq!(c.current(), 0);
}

#[test]
fn many_noop_guards_leave_no_state_change() {
    let mut c = DepthCounter::new();
    for i in 0..100u32 {
        let (mut g, start) = noop::timer_start(&mut c, format!("op-{}", i), i % 2 == 0);
        assert!(start.is_none());
        assert!(noop::timer_end(&mut c, &mut g, false).is_none());
    }
    assert_eq!(c.current(), 0);
}
