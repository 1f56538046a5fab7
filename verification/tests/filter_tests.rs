use icarus::filter::{Filter, TriAxialFilter};

/// Before warm-up the value is the mean of however many samples were fed.
#[test]
fn partial_window_mean() {
    let mut f = Filter::new();
    assert_eq!(f.value(), 0);
    f.update(10);
    assert_eq!(f.value(), 10);
    f.update(20);
    assert_eq!(f.value(), 15);
    f.update(21);
    assert_eq!(f.value(), 17);
}

/// Past warm-up only the last three samples count.
#[test]
fn full_window_keeps_last_three() {
    let mut f = Filter::new();
    for v in [100, 1, 2, 3] {
        f.update(v);
    }
    assert_eq!(f.value(), 2);
    f.update(9);
    assert_eq!(f.value(), (2 + 3 + 9) / 3);
}

/// Negative sums divide toward zero, as the hardware does.
#[test]
fn negative_mean_truncates_toward_zero() {
    let mut f = Filter::new();
    f.update(-5);
    assert_eq!(f.value(), -5);
    f.update(-6);
    assert_eq!(f.value(), -5); // -11 / 2 truncates to -5
}

/// Extreme samples neither overflow nor leave the sample range.
#[test]
fn extreme_samples_stay_in_range() {
    let mut f = Filter::new();
    f.update(i32::MAX);
    f.update(i32::MAX);
    f.update(i32::MAX);
    assert_eq!(f.value(), i32::MAX);
    let mut g = Filter::new();
    g.update(i32::MIN);
    g.update(i32::MIN);
    g.update(i32::MIN);
    assert_eq!(g.value(), i32::MIN);
}

/// Each axis reads its own window: feeding distinct per-axis values must
/// come back on the same axis.
#[test]
fn axes_are_independent() {
    let mut f = TriAxialFilter::new();
    f.update((1, 100, 1000));
    f.update((3, 300, 3000));
    assert_eq!(f.get_x(), 2);
    assert_eq!(f.get_y(), 200);
    assert_eq!(f.get_z(), 2000);
    assert_eq!(f.value(), (2, 200, 2000));
}

#[test]
fn default_filters_are_empty() {
    let f = Filter::default();
    assert_eq!(f.value(), 0);
    let t = TriAxialFilter::default();
    assert_eq!(t.value(), (0, 0, 0));
}
