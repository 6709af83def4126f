use bench_utils::DepthCounter;
use bench_utils::timer::{timer_start, timer_end, timer_end_with};

fn plain() {
    colored::control::set_override(false);
}

fn duration_has_unit(line: &str) -> bool {
    line.ends_with("ns") || line.ends_with("µs") || line.ends_with("ms") || line.ends_with("s")
}

#[test]
fn end_to_end_single_guard() {
    plain();
    let mut c = DepthCounter::new();
    let (mut g, start) = timer_start(&mut c, String::from("load-config"), true);
    let start = start.unwrap();
    assert_eq!(start, "Start:   load-config");
    assert_eq!(c.current(), 1);

    let end = timer_end(&mut c, &mut g, true).unwrap();
    assert!(end.starts_with("End:     load-config ."));
    assert!(end.contains("load-config"));
    assert!(duration_has_unit(&end));
    assert_eq!(c.current(), 0);
}

#[test]
fn end_line_right_aligns_duration() {
    plain();
    let mut c = DepthCounter::new();
    let (mut g, _) = timer_start(&mut c, String::from("x"), true);
    let end = timer_end(&mut c, &mut g, true).unwrap();
    // tag field (8) + separator + label field filled to 75 columns
    let before_duration = 4 + 5 + 75;
    let chars: Vec<char> = end.chars().collect();
    assert!(chars.len() > before_duration);
    assert_eq!(&chars[9..11], ['x', ' ']);
    assert!(chars[11..before_duration].iter().all(|c| *c == '.'));
}

#[test]
fn disposal_is_idempotent() {
    plain();
    let mut c = DepthCounter::new();
    let (mut g, _) = timer_start(&mut c, String::from("once"), true);
    let first = timer_end(&mut c, &mut g, true);
    assert!(first.is_some());
    assert_eq!(c.current(), 0);
    let second = timer_end(&mut c, &mut g, true);
    assert!(second.is_none());
    assert_eq!(c.current(), 0);
    let third = timer_end_with(&mut c, &mut g, "late", true);
    assert!(third.is_none());
    assert_eq!(c.current(), 0);
}

#[test]
fn nested_guards_indent_and_rebalance() {
    plain();
    let mut c = DepthCounter::new();
    let (mut outer, outer_start) = timer_start(&mut c, String::from("outer"), true);
    assert_eq!(outer_start.unwrap(), "Start:   outer");
    let (mut inner, inner_start) = timer_start(&mut c, String::from("inner"), true);
    assert_eq!(inner_start.unwrap(), "  Start:   inner");
    assert_eq!(c.current(), 2);

    let inner_end = timer_end(&mut c, &mut inner, true).unwrap();
    assert!(inner_end.starts_with("  End:     inner ."));
    assert_eq!(c.current(), 1);

    let outer_end = timer_end(&mut c, &mut outer, true).unwrap();
    assert!(outer_end.starts_with("End:     outer ."));
    assert_eq!(c.current(), 0);
}

#[test]
fn suffix_is_appended_to_the_label_field() {
    plain();
    let mut c = DepthCounter::new();
    let (mut g, _) = timer_start(&mut c, String::from("save"), true);
    let end = timer_end_with(&mut c, &mut g, "3 items", true).unwrap();
    assert!(end.starts_with("End:     save 3 items."));
}

#[test]
fn deep_nesting_clamps_the_fill_width() {
    plain();
    let mut c = DepthCounter::new();
    let mut guards = Vec::new();
    for _ in 0..45 {
        let (g, _) = timer_start(&mut c, String::from("deep"), true);
        guards.push(g);
    }
    assert_eq!(c.current(), 45);
    while let Some(mut g) = guards.pop() {
        let end = timer_end(&mut c, &mut g, true).unwrap();
        assert!(duration_has_unit(&end));
    }
    assert_eq!(c.current(), 0);
}

#[test]
fn dotted_indent_when_colors_enabled_flag_is_off() {
    plain();
    let mut c = DepthCounter::new();
    let (mut outer, _) = timer_start(&mut c, String::from("outer"), false);
    let (mut inner, inner_start) = timer_start(&mut c, String::from("inner"), false);
    assert_eq!(inner_start.unwrap(), "··Start:   inner");
    timer_end(&mut c, &mut inner, false);
    timer_end(&mut c, &mut outer, false);
    assert_eq!(c.current(), 0);
}
