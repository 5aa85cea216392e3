use molsurf::geom::Point3;
use molsurf::grid::{GridError, VoxelGrid};

fn demo_scene() -> Vec<Point3> {
    vec![
        Point3::new(1500, 0, 0),
        Point3::new(-1500, 0, 0),
        Point3::new(0, 2500, 0),
    ]
}

#[test]
fn rejects_empty_atom_list() {
    let atoms: Vec<Point3> = Vec::new();
    let r = VoxelGrid::new(2000, &atoms);
    assert!(matches!(r, Err(GridError::NoAtoms)));
}

#[test]
fn rejects_non_positive_probe_radius() {
    let atoms = demo_scene();
    assert!(matches!(
        VoxelGrid::new(0, &atoms),
        Err(GridError::NonPositiveProbeRadius)
    ));
    assert!(matches!(
        VoxelGrid::new(-5, &atoms),
        Err(GridError::NonPositiveProbeRadius)
    ));
}

#[test]
fn demo_scene_grid_dimensions() {
    // Probe radius 2.0 units gives a voxel length of 8.0 units; the padded
    // recentered box rounds out to [-8, 8]^3, a 2x2x2 grid.
    let atoms = demo_scene();
    let g = VoxelGrid::new(2000, &atoms).unwrap();
    assert_eq!(g.voxel_length, 8000);
    assert_eq!((g.bb_min.x, g.bb_min.y, g.bb_min.z), (-8000, -8000, -8000));
    assert_eq!((g.bb_max.x, g.bb_max.y, g.bb_max.z), (8000, 8000, 8000));
    assert_eq!((g.bb_diff.x, g.bb_diff.y, g.bb_diff.z), (16000, 16000, 16000));
    assert_eq!((g.bb_size.x, g.bb_size.y, g.bb_size.z), (2, 2, 2));
    assert_eq!(g.voxel_pointers.len(), 8);
    assert_eq!(g.voxels.len(), 3);
}

#[test]
fn demo_scene_bucket_contents() {
    // The recentered atoms are (1500,-1250,0), (-1500,-1250,0), (0,1250,0),
    // landing in cells 5, 4 and 7 of the 2x2x2 grid.
    let atoms = demo_scene();
    let g = VoxelGrid::new(2000, &atoms).unwrap();
    let lens: Vec<u32> = g.voxel_pointers.iter().map(|p| p.length).collect();
    assert_eq!(lens, vec![0, 0, 0, 0, 1, 1, 0, 1]);
    assert_eq!(g.voxels[g.voxel_pointers[4].start as usize], Point3::new(-1500, -1250, 0));
    assert_eq!(g.voxels[g.voxel_pointers[5].start as usize], Point3::new(1500, -1250, 0));
    assert_eq!(g.voxels[g.voxel_pointers[7].start as usize], Point3::new(0, 1250, 0));
}

#[test]
fn pointers_are_contiguous_and_lengths_sum_to_atom_count() {
    let atoms = demo_scene();
    let g = VoxelGrid::new(2000, &atoms).unwrap();
    assert_eq!(g.voxel_pointers[0].start, 0);
    let mut sum: u64 = 0;
    for c in 0..g.voxel_pointers.len() {
        let p = g.voxel_pointers[c];
        if c + 1 < g.voxel_pointers.len() {
            assert_eq!(p.start + p.length, g.voxel_pointers[c + 1].start);
        } else {
            assert_eq!((p.start + p.length) as usize, g.voxels.len());
        }
        sum += p.length as u64;
    }
    assert_eq!(sum, atoms.len() as u64);
}

#[test]
fn every_atom_lands_in_exactly_one_bucket() {
    // A larger irregular scene: each input atom appears exactly once in the
    // flat buffer, and within the block of exactly one cell.
    let atoms = vec![
        Point3::new(0, 0, 0),
        Point3::new(10_000, -3_000, 2_500),
        Point3::new(-9_999, 8_888, -7_777),
        Point3::new(10_000, -3_000, 2_500),
        Point3::new(1, 2, 3),
    ];
    let g = VoxelGrid::new(1500, &atoms).unwrap();
    assert_eq!(g.voxels.len(), atoms.len());
    let mut sum: u64 = 0;
    for p in g.voxel_pointers.iter() {
        sum += p.length as u64;
    }
    assert_eq!(sum, atoms.len() as u64);
    // Recentre the inputs the way the build does and count each in the flat
    // buffer: every atom appears with its input multiplicity.
    let (mnx, mxx) = (-9_999i64, 10_000i64);
    let (mny, mxy) = (-3_000i64, 8_888i64);
    let (mnz, mxz) = (-7_777i64, 2_500i64);
    let c = |s: i64| if s >= 0 { s / 2 } else { -((-s) / 2) };
    let (cx, cy, cz) = (c(mnx + mxx), c(mny + mxy), c(mnz + mxz));
    for a in atoms.iter() {
        let want = Point3::new(a.x - cx, a.y - cy, a.z - cz);
        let in_input = atoms.iter().filter(|b| **b == *a).count();
        let in_grid = g.voxels.iter().filter(|b| **b == want).count();
        assert_eq!(in_input, in_grid);
    }
}

#[test]
fn degenerate_coplanar_atoms_still_get_a_grid() {
    // All atoms in the z = 0 plane: the padded box still rounds out to at
    // least one cell along z.
    let atoms = vec![Point3::new(0, 0, 0), Point3::new(12_000, 0, 0)];
    let g = VoxelGrid::new(1000, &atoms).unwrap();
    assert!(g.bb_size.z >= 1);
    assert!(g.bb_size.x >= 1 && g.bb_size.y >= 1);
    assert_eq!(g.voxels.len(), 2);
}
