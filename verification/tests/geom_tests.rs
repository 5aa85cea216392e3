use molsurf::geom::{isqrt, Point3};
use molsurf::march::norm_len;

#[test]
fn isqrt_small_values() {
    assert_eq!(isqrt(0), 0);
    assert_eq!(isqrt(1), 1);
    assert_eq!(isqrt(3), 1);
    assert_eq!(isqrt(4), 2);
    assert_eq!(isqrt(15), 3);
    assert_eq!(isqrt(16), 4);
    assert_eq!(isqrt(24), 4);
    assert_eq!(isqrt(25), 5);
}

#[test]
fn isqrt_large_values() {
    assert_eq!(isqrt(1_000_000_000_000_000_000), 1_000_000_000);
    let b: u128 = 1_000_000_001;
    assert_eq!(isqrt(b * b - 1), 1_000_000_000);
    assert_eq!(isqrt(b * b), 1_000_000_001);
}

#[test]
fn norm_len_of_vectors() {
    assert_eq!(norm_len(Point3::new(3, 4, 0)), 5);
    assert_eq!(norm_len(Point3::new(-3, 4, 0)), 5);
    assert_eq!(norm_len(Point3::new(0, 0, 0)), 0);
    assert_eq!(norm_len(Point3::new(1, 1, 1)), 1);
    assert_eq!(norm_len(Point3::new(16000, 16000, 16000)), 27712);
}
