use molsurf::utils::RoundToMultiple;

#[test]
fn round_positive_up_to_multiple() {
    assert_eq!(2500i64.round_to_multiple(8000), 8000);
    assert_eq!(2250i64.round_to_multiple(8000), 8000);
    assert_eq!(8001i64.round_to_multiple(8000), 16000);
    assert_eq!(500i64.round_to_multiple(7), 504);
}

#[test]
fn round_negative_away_from_zero() {
    assert_eq!((-2500i64).round_to_multiple(8000), -8000);
    assert_eq!((-2250i64).round_to_multiple(8000), -8000);
    assert_eq!((-1i64).round_to_multiple(8000), -8000);
    assert_eq!((-8001i64).round_to_multiple(8000), -16000);
}

#[test]
fn round_exact_multiples_stay() {
    assert_eq!(0i64.round_to_multiple(8000), 0);
    assert_eq!(8000i64.round_to_multiple(8000), 8000);
    assert_eq!((-8000i64).round_to_multiple(8000), -8000);
    assert_eq!(16000i64.round_to_multiple(8000), 16000);
}

#[test]
fn round_magnitude_never_shrinks_and_lands_on_multiple() {
    let cases: Vec<(i64, i64)> = vec![
        (1, 3),
        (2, 3),
        (3, 3),
        (4, 3),
        (-1, 3),
        (-2, 3),
        (-4, 3),
        (123456, 1000),
        (-123456, 1000),
        (999, 8000),
        (-999, 8000),
    ];
    for (v, m) in cases {
        let r = v.round_to_multiple(m);
        assert!(r.abs() >= v.abs(), "{v} {m} -> {r}");
        assert_eq!(r % m, 0, "{v} {m} -> {r}");
        assert!(r.abs() < v.abs() + m, "{v} {m} -> {r}");
    }
}
