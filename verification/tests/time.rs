use http_frontend::time::{MonotonicTime, TimeSpan, WallTime};

#[test]
fn spans_convert_exactly() {
    assert_eq!(TimeSpan::zero().as_nanos(), 0);
    assert_eq!(TimeSpan::from_nanos(17).as_nanos(), 17);
    assert_eq!(TimeSpan::from_millis(3).as_nanos(), 3_000_000);
    assert_eq!(TimeSpan::from_secs(900).as_nanos(), 900_000_000_000);
    assert_eq!(
        TimeSpan::from_secs(u64::MAX).as_nanos(),
        u64::MAX as u128 * 1_000_000_000
    );
    assert_eq!(TimeSpan::from_nanos(1_999_999_999).as_secs(), 1);
    assert_eq!(TimeSpan::from_nanos(1_999_999_999).as_millis(), 1_999);
    assert_eq!(TimeSpan::from_nanos(999_999_999).as_secs(), 0);
}

#[test]
fn truncation_rounds_down_to_seconds() {
    assert_eq!(
        TimeSpan::from_nanos(2_500_000_001).truncate_to_secs(),
        TimeSpan::from_secs(2)
    );
    assert_eq!(
        TimeSpan::from_nanos(999_999_999).truncate_to_secs(),
        TimeSpan::zero()
    );
    assert_eq!(
        TimeSpan::from_secs(7).truncate_to_secs(),
        TimeSpan::from_secs(7)
    );
}

#[test]
fn min_and_max_of_spans() {
    let short = TimeSpan::from_secs(1);
    let long = TimeSpan::from_secs(2);
    assert_eq!(short.max(long), long);
    assert_eq!(long.max(short), long);
    assert_eq!(short.min(long), short);
    assert_eq!(long.min(short), short);
}

#[test]
fn elapsed_time_saturates_at_zero() {
    let early = MonotonicTime::from_nanos(100);
    let late = MonotonicTime::from_nanos(350);
    assert_eq!(late.saturating_since(early), TimeSpan::from_nanos(250));
    assert_eq!(early.saturating_since(late), TimeSpan::zero());
    assert_eq!(early.saturating_since(early), TimeSpan::zero());
}

#[test]
fn wall_time_counts_from_the_epoch() {
    assert_eq!(WallTime::from_secs(0), WallTime::from_nanos(0));
    assert_eq!(WallTime::from_secs(3), WallTime::from_nanos(3_000_000_000));
    assert_eq!(WallTime::from_nanos(-5).nanos, -5);
}
