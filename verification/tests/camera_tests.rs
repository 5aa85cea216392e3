use molsurf::camera::{RotationCamera, DISTANCE_LIMIT, SPEED_LIMIT};
use molsurf::geom::Point3;

#[test]
fn camera_starts_on_negative_yaw_axis() {
    let c = RotationCamera::new(13_856);
    assert_eq!(c.yaw, -90_000);
    assert_eq!(c.pitch, 0);
    assert_eq!(c.distance, 13_856);
    assert_eq!(c.speed, 1000);
    assert!(!c.mouse_pressed);
}

#[test]
fn camera_distance_is_clamped_to_range() {
    let c = RotationCamera::new(200_000_000);
    assert_eq!(c.distance, DISTANCE_LIMIT);
    let c2 = RotationCamera::new(-200_000_000);
    assert_eq!(c2.distance, -DISTANCE_LIMIT);
}

#[test]
fn rotate_accumulates_unclamped_angles() {
    let mut c = RotationCamera::new(10_000);
    c.rotate(1500, -2500);
    assert_eq!(c.yaw, -88_500);
    assert_eq!(c.pitch, -2500);
    // No gimbal guard: pitch may pass the poles.
    c.rotate(0, -200_000);
    assert_eq!(c.pitch, -202_500);
}

#[test]
fn zoom_scales_by_speed_and_has_no_lower_bound() {
    let mut c = RotationCamera::new(10_000);
    c.zoom(2000);
    assert_eq!(c.distance, 8000);
    c.zoom(-500);
    assert_eq!(c.distance, 8500);
    // Zooming far past the centre goes negative, as the orbit allows.
    c.zoom(20_000);
    assert_eq!(c.distance, -11_500);
}

#[test]
fn zoom_uses_the_speed_factor() {
    let mut c = RotationCamera::new(10_000);
    c.set_speed(2500);
    assert_eq!(c.speed, 2500);
    c.zoom(1000);
    assert_eq!(c.distance, 7500);
}

#[test]
fn set_speed_clamps_to_range() {
    let mut c = RotationCamera::new(10_000);
    c.set_speed(2_000_000);
    assert_eq!(c.speed, SPEED_LIMIT);
}

#[test]
fn eye_is_the_distance_along_the_direction() {
    let c = RotationCamera::new(10_000);
    assert_eq!(c.eye(Point3::new(0, 0, 1000)), Point3::new(0, 0, 10_000));
    assert_eq!(c.eye(Point3::new(707, 0, -707)), Point3::new(7070, 0, -7070));
    assert_eq!(c.eye(Point3::new(0, -1000, 0)), Point3::new(0, -10_000, 0));
}
