use molsurf::application::{Application, DeviceEvent, InputEvent};
use molsurf::cache::DistanceCache;
use molsurf::geom::Point3;
use molsurf::march::{CameraFrame, Rgba, CACHE_SENTINEL};

fn miss_camera() -> CameraFrame {
    CameraFrame {
        eye: Point3::new(0, 0, 50_000),
        forward: Point3::new(0, 0, 1000),
        right: Point3::new(1000, 0, 0),
        up: Point3::new(0, 1000, 0),
    }
}

fn hit_camera() -> CameraFrame {
    CameraFrame {
        eye: Point3::new(0, 1250, -20_000),
        forward: Point3::new(0, 0, 1000),
        right: Point3::new(1000, 0, 0),
        up: Point3::new(0, 1000, 0),
    }
}

#[test]
fn new_application_defaults() {
    let a = Application::new(4, 4);
    assert!(a.camera_changed);
    assert_eq!(a.solvent_radius(), 716);
    assert_eq!(a.max_neighbours(), 15);
    assert_eq!(a.max_steps(), 8);
    assert_eq!(a.voxel_grid.voxel_length, 8000);
    assert_eq!(a.distance_cache.values.len(), 16);
    assert!(a.distance_cache.values.iter().all(|v| *v == CACHE_SENTINEL));
    // Half the diagonal of the 16x16x16-unit box.
    assert_eq!(a.camera.distance, 13_856);
}

#[test]
fn setters_take_effect_and_mark_the_scene_changed() {
    let mut a = Application::new(2, 2);
    let cam = miss_camera();
    a.render(&cam, 0);
    assert!(!a.camera_changed);

    // The core accepts solvent radii outside the UI's [0, 2]-unit range
    // and uses them as given: range policy is the embedding's.
    a.set_solvent_radius(3000);
    assert!(a.camera_changed);
    assert_eq!(a.solvent_radius(), 3000);
    a.set_solvent_radius(-500);
    assert_eq!(a.solvent_radius(), -500);

    a.render(&cam, 0);
    a.set_max_neighbours(45);
    assert!(a.camera_changed);
    assert_eq!(a.max_neighbours(), 45);

    a.render(&cam, 0);
    a.set_max_steps(64);
    assert!(a.camera_changed);
    assert_eq!(a.max_steps(), 64);
}

#[test]
fn globals_bundle_carries_the_current_state() {
    let mut a = Application::new(3, 2);
    a.set_solvent_radius(3000);
    let g = a.globals(Point3::new(1, 2, 3), 42);
    assert_eq!(g.window_width, 3);
    assert_eq!(g.window_height, 2);
    assert_eq!(g.camera_origin, Point3::new(1, 2, 3));
    assert_eq!(g.solvent_radius, 3000);
    assert_eq!(g.max_neighbours, 15);
    assert_eq!(g.max_steps, 8);
    assert_eq!(g.time, 42);
    assert_eq!(g.voxel_length, 8000);
    assert_eq!(g.bb_min, Point3::new(-8000, -8000, -8000));
    assert_eq!(g.bb_max, Point3::new(8000, 8000, 8000));
}

#[test]
fn missing_rays_paint_the_background() {
    let mut a = Application::new(2, 2);
    let cam = miss_camera();
    let out = a.render(&cam, 0);
    assert_eq!(out.color.len(), 4);
    for p in 0..4 {
        assert_eq!(out.color[p], Rgba { r: 100, g: 100, b: 300, a: 1000 });
        assert_eq!(out.positions[p], Point3::new(0, 0, 0));
        assert_eq!(out.normals[p], Point3::new(0, 0, 0));
        // Eight empty steps of one voxel edge each.
        assert_eq!(a.distance_cache.values[p], 64_000);
    }
}

#[test]
fn hitting_ray_writes_position_normal_and_colour() {
    let mut a = Application::new(1, 1);
    let cam = hit_camera();
    let out = a.render(&cam, 0);
    assert_eq!(out.color.len(), 1);
    assert_eq!(out.positions[0], Point3::new(0, 1250, -716));
    assert_eq!(out.normals[0], Point3::new(0, 0, -1000));
    assert_eq!(out.color[0], Rgba { r: 500, g: 500, b: 0, a: 1000 });
    assert_eq!(a.distance_cache.values[0], 19_284);
}

#[test]
fn static_camera_refines_without_regressing() {
    let mut a = Application::new(2, 2);
    let cam = miss_camera();
    a.render(&cam, 0);
    let first: Vec<i64> = a.distance_cache.values.clone();
    a.render(&cam, 1);
    let second: Vec<i64> = a.distance_cache.values.clone();
    for p in 0..4 {
        assert!(second[p] >= first[p]);
    }
    // These misses keep accumulating travel: eight more voxel-edge steps.
    assert!(second.iter().all(|v| *v == 128_000));
}

#[test]
fn camera_change_restarts_the_accumulation() {
    let mut a = Application::new(2, 2);
    let cam = miss_camera();
    a.render(&cam, 0);
    a.render(&cam, 1);
    assert!(a.distance_cache.values.iter().all(|v| *v == 128_000));
    // Any tunable or camera mutation marks the scene changed; the next
    // frame then starts from scratch.
    a.set_max_steps(8);
    assert!(a.camera_changed);
    a.render(&cam, 2);
    assert!(a.distance_cache.values.iter().all(|v| *v == 64_000));
}

#[test]
fn cache_reset_fills_with_the_sentinel() {
    let mut c = DistanceCache::new(3);
    assert!(c.values.iter().all(|v| *v == CACHE_SENTINEL));
    c.set_entry(1, 12345);
    assert_eq!(c.values[1], 12345);
    c.reset();
    assert_eq!(c.values.len(), 3);
    assert!(c.values.iter().all(|v| *v == CACHE_SENTINEL));
}

#[test]
fn resize_restarts_the_cache_at_the_new_size() {
    let mut a = Application::new(2, 2);
    let cam = miss_camera();
    a.render(&cam, 0);
    a.resize(3, 2);
    assert_eq!(a.distance_cache.values.len(), 6);
    assert!(a.distance_cache.values.iter().all(|v| *v == CACHE_SENTINEL));
}

#[test]
fn reload_discards_the_old_grid_entirely() {
    let mut a = Application::new(2, 2);
    let cam = miss_camera();
    a.render(&cam, 0);
    assert!(!a.camera_changed);
    let old_cells = a.voxel_grid.voxel_pointers.len();
    assert_eq!(old_cells, 8);

    let atoms = vec![Point3::new(20_000, 0, 0), Point3::new(-20_000, 0, 0)];
    a.load_molecule(1000, &atoms).unwrap();
    assert!(a.camera_changed);
    assert_eq!(a.voxel_grid.voxel_length, 6000);
    assert_eq!(
        (a.voxel_grid.bb_size.x, a.voxel_grid.bb_size.y, a.voxel_grid.bb_size.z),
        (8, 2, 2)
    );
    assert_eq!(a.voxel_grid.voxel_pointers.len(), 32);
    // Only the new atoms are anywhere in the flat buffer: no cell of the
    // old grid's layout aliases old data.
    assert_eq!(a.voxel_grid.voxels.len(), 2);
    for v in a.voxel_grid.voxels.iter() {
        assert!(*v == Point3::new(20_000, 0, 0) || *v == Point3::new(-20_000, 0, 0));
    }
}

#[test]
fn failed_reload_keeps_the_previous_scene() {
    let mut a = Application::new(2, 2);
    let before_len = a.voxel_grid.voxels.len();
    let empty: Vec<Point3> = Vec::new();
    assert!(a.load_molecule(1000, &empty).is_err());
    assert_eq!(a.voxel_grid.voxels.len(), before_len);
    assert!(a.load_molecule(0, &vec![Point3::new(0, 0, 0)]).is_err());
    assert_eq!(a.voxel_grid.voxels.len(), before_len);
}

#[test]
fn wheel_zooms_and_marks_the_camera_changed() {
    let mut a = Application::new(2, 2);
    a.render(&miss_camera(), 0);
    let d0 = a.camera.distance;
    a.window_event(&InputEvent::MouseWheel { delta: 2000 });
    assert!(a.camera_changed);
    assert_eq!(a.camera.distance, d0 - 2000);
}

#[test]
fn clicks_on_the_panel_do_not_grab_the_camera() {
    let mut a = Application::new(2, 2);
    a.window_event(&InputEvent::CursorMoved { x: 100, y: 50 });
    a.window_event(&InputEvent::MouseInput { pressed: true, left_button: true });
    assert!(!a.mouse_pressed);
    a.window_event(&InputEvent::CursorMoved { x: 300, y: 50 });
    a.window_event(&InputEvent::MouseInput { pressed: true, left_button: true });
    assert!(a.mouse_pressed);
}

#[test]
fn dragging_rotates_only_while_grabbed() {
    let mut a = Application::new(2, 2);
    a.render(&miss_camera(), 0);
    let yaw0 = a.camera.yaw;
    a.device_event(&DeviceEvent::MouseMotion { dx: 500, dy: -300 });
    assert_eq!(a.camera.yaw, yaw0);
    assert!(!a.camera_changed);

    a.window_event(&InputEvent::CursorMoved { x: 300, y: 50 });
    a.window_event(&InputEvent::MouseInput { pressed: true, left_button: true });
    a.device_event(&DeviceEvent::MouseMotion { dx: 500, dy: -300 });
    assert_eq!(a.camera.yaw, yaw0 + 500);
    assert_eq!(a.camera.pitch, -300);
    assert!(a.camera_changed);
}
