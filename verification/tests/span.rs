use registry_cache::span::Span;

#[test]
fn span_of_one_hour_in_nanoseconds() {
    assert_eq!(Span::from_secs(3600).as_nanos(), 3_600_000_000_000u128);
}

#[test]
fn span_of_the_largest_second_count_does_not_overflow() {
    assert_eq!(
        Span::from_secs(u64::MAX).as_nanos(),
        18_446_744_073_709_551_615u128 * 1_000_000_000u128
    );
}

#[test]
fn span_splits_into_seconds_and_nanoseconds() {
    let span = Span::from_nanos(2_500_000_001);
    assert_eq!(span.as_secs(), 2);
    assert_eq!(span.subsec_nanos(), 500_000_001);
}

#[test]
fn span_zero_is_empty() {
    assert_eq!(Span::zero(), Span::from_nanos(0));
    assert_eq!(Span::zero().as_nanos(), 0);
}

#[test]
fn span_elapsed_is_the_difference() {
    let now = Span::from_secs(10_000);
    let earlier = Span::from_secs(2_800);
    assert_eq!(now.elapsed_since(earlier), Span::from_secs(7_200));
}

#[test]
fn span_elapsed_since_the_future_is_nothing() {
    let now = Span::from_secs(100);
    let later = Span::from_nanos(100_000_000_001);
    assert_eq!(now.elapsed_since(later), Span::zero());
    assert_eq!(now.elapsed_since(now), Span::zero());
}

#[test]
fn span_exceeds_is_strict() {
    let hour = Span::from_secs(3600);
    assert!(!hour.exceeds(hour));
    assert!(Span::from_nanos(3_600_000_000_001).exceeds(hour));
    assert!(!Span::from_nanos(3_599_999_999_999).exceeds(hour));
}

#[test]
fn span_longer_of_picks_the_longer() {
    let short = Span::from_secs(1);
    let long = Span::from_secs(2);
    assert_eq!(short.longer_of(long), long);
    assert_eq!(long.longer_of(short), long);
    assert_eq!(long.longer_of(long), long);
}
