use molsurf::geom::Point3;
use molsurf::grid::VoxelGrid;
use molsurf::march::{march_ray, sdf_at, CameraFrame, RaymarchGlobals, NO_CONTRIBUTION};

fn demo_grid() -> VoxelGrid {
    let atoms = vec![
        Point3::new(1500, 0, 0),
        Point3::new(-1500, 0, 0),
        Point3::new(0, 2500, 0),
    ];
    VoxelGrid::new(2000, &atoms).unwrap()
}

fn wide_grid() -> VoxelGrid {
    let atoms = vec![Point3::new(20_000, 0, 0), Point3::new(-20_000, 0, 0)];
    VoxelGrid::new(1000, &atoms).unwrap()
}

#[test]
fn sdf_outside_the_grid_is_no_contribution() {
    let g = demo_grid();
    let d = sdf_at(&g, Point3::new(0, 0, -20_000), 716, 15);
    assert_eq!(d, NO_CONTRIBUTION);
}

#[test]
fn sdf_at_an_atom_centre_is_minus_the_solvent_radius() {
    let g = demo_grid();
    // Recentered third atom sits at (0, 1250, 0).
    assert_eq!(sdf_at(&g, Point3::new(0, 1250, 0), 716, 15), -716);
    // The solvent radius is used as given, whatever its value.
    assert_eq!(sdf_at(&g, Point3::new(0, 1250, 0), 3000, 15), -3000);
    assert_eq!(sdf_at(&g, Point3::new(0, 1250, 0), -500, 15), 500);
}

#[test]
fn sdf_inside_empty_neighbourhood_is_no_contribution() {
    // The wide grid is 8x2x2 cells; the middle cells are empty and both
    // atoms lie outside their stencil.
    let g = wide_grid();
    assert_eq!(sdf_at(&g, Point3::new(0, 0, 0), 716, 15), NO_CONTRIBUTION);
}

#[test]
fn march_with_zero_candidates_does_not_stall() {
    // From the empty middle of the wide grid, each step advances by one
    // voxel edge (6000 ticks): eight steps, no hit, forward progress.
    let g = wide_grid();
    let r = march_ray(
        &g,
        Point3::new(0, 0, 0),
        Point3::new(0, 0, 1000),
        716,
        15,
        8,
        0,
    );
    assert!(!r.hit);
    assert_eq!(r.travel, 48_000);
}

#[test]
fn march_converges_on_an_atom_surface() {
    // Ray from (0,1250,-20000) along +z toward the recentered atom at
    // (0,1250,0): two empty steps of one voxel edge, one guided step, hit.
    let g = demo_grid();
    let r = march_ray(
        &g,
        Point3::new(0, 1250, -20_000),
        Point3::new(0, 0, 1000),
        716,
        15,
        8,
        0,
    );
    assert!(r.hit);
    assert_eq!(r.travel, 19_284);
}

#[test]
fn march_respects_the_step_budget() {
    let g = demo_grid();
    // A ray pointing away from the scene never hits and stops after its
    // per-frame budget: max_steps empty steps of one voxel edge (8000).
    let r = march_ray(
        &g,
        Point3::new(0, 0, 50_000),
        Point3::new(0, 0, 1000),
        716,
        15,
        3,
        0,
    );
    assert!(!r.hit);
    assert_eq!(r.travel, 24_000);
}

#[test]
fn march_seeded_at_a_hit_stays_there() {
    let g = demo_grid();
    let cam = CameraFrame {
        eye: Point3::new(0, 1250, -20_000),
        forward: Point3::new(0, 0, 1000),
        right: Point3::new(1000, 0, 0),
        up: Point3::new(0, 1000, 0),
    };
    let first = march_ray(&g, cam.eye, cam.forward, 716, 15, 8, 0);
    assert!(first.hit);
    let again = march_ray(&g, cam.eye, cam.forward, 716, 15, 8, first.travel);
    assert!(again.hit);
    assert_eq!(again.travel, first.travel);
}

#[test]
fn capping_neighbours_never_lowers_the_estimate() {
    // The estimate is a minimum over at most max_neighbours candidates:
    // with fewer candidates admitted it can only grow.
    let g = demo_grid();
    let probes = vec![
        Point3::new(0, 1250, 0),
        Point3::new(500, -500, 500),
        Point3::new(-2000, 0, 100),
        Point3::new(7000, 7000, 7000),
    ];
    for p in probes {
        let few = sdf_at(&g, p, 716, 1);
        let many = sdf_at(&g, p, 716, 15);
        assert!(few >= many, "{:?}", p);
    }
}

#[test]
fn default_globals_are_all_zero() {
    let g = RaymarchGlobals::default();
    assert_eq!(g.window_width, 0);
    assert_eq!(g.window_height, 0);
    assert_eq!(g.camera_origin, Point3::new(0, 0, 0));
    assert_eq!(g.bb_min, Point3::new(0, 0, 0));
    assert_eq!(g.voxel_length, 0);
    assert_eq!(g.solvent_radius, 0);
    assert_eq!(g.max_neighbours, 0);
    assert_eq!(g.max_steps, 0);
    assert_eq!(g.save, 0);
}
