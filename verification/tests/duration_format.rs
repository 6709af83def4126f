use bench_utils::duration::format_duration;
use bench_utils::digits::u64_to_string;

#[test]
fn zero_nanos() {
    assert_eq!(format_duration(0, 0), "0ns");
}

#[test]
fn max_nanos_branch() {
    assert_eq!(format_duration(0, 999), "999ns");
}

#[test]
fn micro_branch() {
    assert_eq!(format_duration(0, 1_500), "1.500µs");
}

#[test]
fn milli_branch() {
    assert_eq!(format_duration(0, 2_500_000), "2.500ms");
}

#[test]
fn second_branch() {
    assert_eq!(format_duration(1, 200_000_000), "1.200s");
}

#[test]
fn truncates_remainder_without_zero_padding() {
    assert_eq!(format_duration(0, 1_050), "1.50µs");
}

#[test]
fn larger_units_suppress_finer_ones() {
    assert_eq!(format_duration(3, 7_654_321), "3.7s");
    assert_eq!(format_duration(0, 999_999_999), "999.999ms");
}

#[test]
fn exact_unit_boundaries() {
    assert_eq!(format_duration(0, 1_000), "1.0µs");
    assert_eq!(format_duration(0, 1_000_000), "1.0ms");
    assert_eq!(format_duration(1, 0), "1.0s");
}

#[test]
fn decimal_digits() {
    assert_eq!(u64_to_string(0), "0");
    assert_eq!(u64_to_string(7), "7");
    assert_eq!(u64_to_string(10), "10");
    assert_eq!(u64_to_string(1234567890), "1234567890");
    assert_eq!(u64_to_string(u64::MAX), "18446744073709551615");
}
