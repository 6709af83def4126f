use bench_utils::compute_indent;

#[test]
fn empty_at_depth_zero() {
    assert_eq!(compute_indent(0, false), "");
    assert_eq!(compute_indent(0, true), "");
}

#[test]
fn dots_by_default() {
    assert_eq!(compute_indent(4, false), "····");
}

#[test]
fn spaces_when_colors_disabled() {
    assert_eq!(compute_indent(4, true), "    ");
}

#[test]
fn length_is_twice_each_depth() {
    for depth in 0..20usize {
        let s = compute_indent(2 * depth, false);
        assert_eq!(s.chars().count(), 2 * depth);
        let s = compute_indent(2 * depth, true);
        assert_eq!(s.chars().count(), 2 * depth);
    }
}

#[test]
fn toggle_changes_the_next_render() {
    assert_eq!(compute_indent(2, false), "··");
    assert_eq!(compute_indent(2, true), "  ");
    assert_eq!(compute_indent(2, false), "··");
}
