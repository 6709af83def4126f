// Forces colorized output on, so these tests must not share a process with
// the tests that force it off; they live in their own file.

use bench_utils::DepthCounter;
use bench_utils::timer::{timer_start, timer_end};

#[test]
fn styling_decorates_without_changing_the_text() {
    colored::control::set_override(true);
    let mut c = DepthCounter::new();
    let (mut g, start) = timer_start(&mut c, String::from("styled-op"), false);
    let start = start.unwrap();
    // the styling collaborator wraps the tag and label in escape sequences
    assert!(start.contains('\u{1b}'));
    assert!(start.contains("Start:"));
    assert!(start.contains("styled-op"));

    let end = timer_end(&mut c, &mut g, false).unwrap();
    assert!(end.contains('\u{1b}'));
    assert!(end.contains("End:"));
    assert!(end.contains("styled-op"));
    assert_eq!(c.current(), 0);
}
