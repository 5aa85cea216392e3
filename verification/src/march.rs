//! Sphere marching through the voxel grid.
//!
//! The implicit surface value at a point is the smallest distance to any
//! nearby atom's solvent-inflated surface; nearby means the 3x3x3 voxel
//! neighbourhood of the cell holding the point, capped at `max_neighbours`
//! candidates. A ray marches by that conservative estimate each step until
//! it converges (hit) or leaves the far plane or its step budget (miss).

use vstd::prelude::*;
use crate::geom::{
    Point3, dist_sq, norm_sq, sqrt_floor, div_trunc_spec, div_trunc, isqrt, SCALE, POS_LIMIT,
    lemma_dist_sq_nonneg, lemma_sqrt_floor_mono, lemma_sqrt_floor_square,
};
use crate::grid::{
    VoxelGrid, axis_cell, linear_index, axis_cell_exec, flat_index_exec, BB_LIMIT,
    VOXEL_LENGTH_LIMIT, lemma_bucket_in_range, lemma_grid_tiles,
};

verus! {

/// Distance below which a march step counts as having hit the surface.
pub const HIT_EPS: i64 = 10;

/// Travel distance past which a ray is a miss.
pub const FAR_LIMIT: i64 = 1_000_000_000;

/// Smallest step a march may take, so an empty neighbourhood cannot stall it.
pub const MIN_STEP: i64 = 1;

/// Largest step a march may take: the cap is one voxel edge, and no voxel
/// is longer than this.
pub const MAX_STEP: i64 = 2_004_000;

/// Surface distance reported when no atom contributes.
pub const NO_CONTRIBUTION: i64 = 1_000_000_000;

/// Largest solvent radius magnitude the distance arithmetic accounts for.
pub const SOLVENT_LIMIT: i64 = 1_000_000_000;

/// Largest camera eye coordinate magnitude.
pub const EYE_LIMIT: i64 = 100_000_000;

/// Largest magnitude of a camera basis vector component.
pub const BASIS_LIMIT: i64 = 1200;

/// Bound on the points a ray can reach within the far plane.
pub const RAY_LIMIT: i64 = 1_150_000_000;

/// One output pixel, in ticks per channel (`SCALE` is full intensity).
#[derive(Clone, Copy, Debug, PartialEq, Eq, Structural)]
pub struct Rgba {
    pub r: i64,
    pub g: i64,
    pub b: i64,
    pub a: i64,
}

/// Colour written for rays that miss every surface.
pub open spec fn background_color() -> Rgba {
    Rgba { r: 100, g: 100, b: 300, a: 1000 }
}

/// The origin.
pub open spec fn zero_point() -> Point3 {
    Point3 { x: 0, y: 0, z: 0 }
}

/// Camera placement for one frame: eye position and an orthonormal basis,
/// each basis vector in ticks (length `SCALE`).
#[derive(Clone, Copy, Debug, PartialEq, Eq, Structural)]
pub struct CameraFrame {
    pub eye: Point3,
    pub forward: Point3,
    pub right: Point3,
    pub up: Point3,
}

impl CameraFrame {
    /// Bounded eye and basis components.
    pub open spec fn wf(self) -> bool {
        &&& self.eye.in_bounds(EYE_LIMIT as int)
        &&& self.forward.in_bounds(BASIS_LIMIT as int)
        &&& self.right.in_bounds(BASIS_LIMIT as int)
        &&& self.up.in_bounds(BASIS_LIMIT as int)
    }
}

/// Distance from `p` to the solvent-inflated surface of atom `a`.
pub open spec fn atom_surface_dist(p: Point3, a: Point3, solvent_radius: int) -> int {
    sqrt_floor(dist_sq(p, a) as nat) - solvent_radius
}

/// `p` lies inside the grid's box (half-open at the maximum corner).
pub open spec fn in_grid_box(g: VoxelGrid, p: Point3) -> bool {
    &&& g.bb_min.x <= p.x < g.bb_max.x
    &&& g.bb_min.y <= p.y < g.bb_max.y
    &&& g.bb_min.z <= p.z < g.bb_max.z
}

/// Fold the candidate atoms of one bucket, from position `k` on, into the
/// running `(count, best)` pair, consuming candidates only while the count
/// is below `max_neighbours`.
pub open spec fn scan_bucket(
    items: Seq<Point3>,
    k: int,
    count: int,
    best: int,
    p: Point3,
    solvent_radius: int,
    max_neighbours: int,
) -> (int, int)
    decreases items.len() - k,
{
    if k < 0 || k >= items.len() || count >= max_neighbours {
        (count, best)
    } else {
        let d = atom_surface_dist(p, items[k], solvent_radius);
        let b2 = if d < best {
            d
        } else {
            best
        };
        scan_bucket(items, k + 1, count + 1, b2, p, solvent_radius, max_neighbours)
    }
}

/// Offset along one axis for stencil position `oi` in `0..27`.
pub open spec fn stencil_dx(oi: int) -> int {
    oi % 3 - 1
}

pub open spec fn stencil_dy(oi: int) -> int {
    (oi / 3) % 3 - 1
}

pub open spec fn stencil_dz(oi: int) -> int {
    oi / 9 - 1
}

/// The bucket scanned at stencil position `oi` around the cell holding `p`:
/// the neighbour cell's bucket when it exists, else nothing.
pub open spec fn stencil_items(g: VoxelGrid, p: Point3, oi: int) -> Seq<Point3> {
    let cx = axis_cell(p.x as int, g.bb_min.x as int, g.voxel_length as int) + stencil_dx(oi);
    let cy = axis_cell(p.y as int, g.bb_min.y as int, g.voxel_length as int) + stencil_dy(oi);
    let cz = axis_cell(p.z as int, g.bb_min.z as int, g.voxel_length as int) + stencil_dz(oi);
    if 0 <= cx < g.bb_size.x && 0 <= cy < g.bb_size.y && 0 <= cz < g.bb_size.z {
        g.bucket(linear_index(cx, cy, cz, g.bb_size.x as int, g.bb_size.y as int))
    } else {
        Seq::empty()
    }
}

/// Fold the buckets of the 3x3x3 stencil, from position `oi` on.
pub open spec fn scan_cells(
    g: VoxelGrid,
    p: Point3,
    solvent_radius: int,
    max_neighbours: int,
    oi: int,
    count: int,
    best: int,
) -> (int, int)
    decreases 27 - oi,
{
    if oi < 0 || oi >= 27 {
        (count, best)
    } else {
        let items = stencil_items(g, p, oi);
        let r = scan_bucket(items, 0, count, best, p, solvent_radius, max_neighbours);
        scan_cells(g, p, solvent_radius, max_neighbours, oi + 1, r.0, r.1)
    }
}

/// The implicit surface value at `p`: the smallest solvent-inflated surface
/// distance among the capped stencil candidates, or `NO_CONTRIBUTION` when
/// the point is outside the grid or no candidate exists.
pub open spec fn sdf_spec(g: VoxelGrid, p: Point3, solvent_radius: int, max_neighbours: int) -> int {
    if !in_grid_box(g, p) {
        NO_CONTRIBUTION as int
    } else {
        scan_cells(g, p, solvent_radius, max_neighbours, 0, 0, NO_CONTRIBUTION as int).1
    }
}

/// One coordinate at least two cells away lies more than one voxel edge off.
proof fn lemma_axis_gap(v1: int, v2: int, min_v: int, vl: int)
    requires
        0 < vl,
        min_v <= v1,
        min_v <= v2,
        crate::utils::abs_of(axis_cell(v2, min_v, vl) - axis_cell(v1, min_v, vl)) >= 2,
    ensures
        crate::utils::abs_of(v2 - v1) > vl,
{
    let c1 = axis_cell(v1, min_v, vl);
    let c2 = axis_cell(v2, min_v, vl);
    vstd::arithmetic::div_mod::lemma_fundamental_div_mod(v1 - min_v, vl);
    vstd::arithmetic::div_mod::lemma_fundamental_div_mod(v2 - min_v, vl);
    assert(0 <= (v1 - min_v) % vl < vl);
    assert(0 <= (v2 - min_v) % vl < vl);
    if c2 >= c1 + 2 {
        assert(vl * c2 >= vl * c1 + 2 * vl) by (nonlinear_arith)
            requires
                c2 >= c1 + 2,
                0 < vl,
        ;
    } else {
        assert(c1 >= c2 + 2);
        assert(vl * c1 >= vl * c2 + 2 * vl) by (nonlinear_arith)
            requires
                c1 >= c2 + 2,
                0 < vl,
        ;
    }
}

/// Law: the voxel sizing guarantee behind the 3x3x3 stencil. An atom whose
/// cell is two or more cells away from the sample point's cell on any axis
/// lies more than one voxel edge from the point, so nothing the stencil
/// misses is nearer than `voxel_length` and a step of one voxel edge
/// cannot pass it.
pub proof fn lemma_outside_stencil_is_far(g: VoxelGrid, p: Point3, a: Point3)
    requires
        g.wf(),
        in_grid_box(g, p),
        g.contains_with_margin(a),
        ({
            let vl = g.voxel_length as int;
            ||| crate::utils::abs_of(
                axis_cell(a.x as int, g.bb_min.x as int, vl) - axis_cell(
                    p.x as int,
                    g.bb_min.x as int,
                    vl,
                ),
            ) >= 2
            ||| crate::utils::abs_of(
                axis_cell(a.y as int, g.bb_min.y as int, vl) - axis_cell(
                    p.y as int,
                    g.bb_min.y as int,
                    vl,
                ),
            ) >= 2
            ||| crate::utils::abs_of(
                axis_cell(a.z as int, g.bb_min.z as int, vl) - axis_cell(
                    p.z as int,
                    g.bb_min.z as int,
                    vl,
                ),
            ) >= 2
        }),
    ensures
        sqrt_floor(dist_sq(p, a) as nat) > g.voxel_length,
{
    let vl = g.voxel_length as int;
    lemma_dist_sq_nonneg(p, a);
    let gap_x = crate::utils::abs_of(a.x - p.x);
    let gap_y = crate::utils::abs_of(a.y - p.y);
    let gap_z = crate::utils::abs_of(a.z - p.z);
    if crate::utils::abs_of(
        axis_cell(a.x as int, g.bb_min.x as int, vl) - axis_cell(p.x as int, g.bb_min.x as int, vl),
    ) >= 2 {
        lemma_axis_gap(p.x as int, a.x as int, g.bb_min.x as int, vl);
        lemma_gap_bounds_distance(p, a, gap_x, vl);
    } else if crate::utils::abs_of(
        axis_cell(a.y as int, g.bb_min.y as int, vl) - axis_cell(p.y as int, g.bb_min.y as int, vl),
    ) >= 2 {
        lemma_axis_gap(p.y as int, a.y as int, g.bb_min.y as int, vl);
        lemma_gap_bounds_distance(p, a, gap_y, vl);
    } else {
        lemma_axis_gap(p.z as int, a.z as int, g.bb_min.z as int, vl);
        lemma_gap_bounds_distance(p, a, gap_z, vl);
    }
}

/// A distance exceeds `vl` whenever one coordinate gap does.
proof fn lemma_gap_bounds_distance(p: Point3, a: Point3, gap: int, vl: int)
    requires
        0 < vl,
        gap > vl,
        gap == crate::utils::abs_of(a.x - p.x) || gap == crate::utils::abs_of(a.y - p.y) || gap
            == crate::utils::abs_of(a.z - p.z),
        0 <= dist_sq(p, a),
    ensures
        sqrt_floor(dist_sq(p, a) as nat) > vl,
{
    assert(dist_sq(p, a) >= gap * gap) by (nonlinear_arith)
        requires
            gap == crate::utils::abs_of(a.x - p.x) || gap == crate::utils::abs_of(a.y - p.y)
                || gap == crate::utils::abs_of(a.z - p.z),
    ;
    assert(gap * gap >= (vl + 1) * (vl + 1)) by (nonlinear_arith)
        requires
            gap >= vl + 1,
            0 < vl,
    ;
    lemma_sqrt_floor_mono(((vl + 1) * (vl + 1)) as nat, dist_sq(p, a) as nat);
    lemma_sqrt_floor_square((vl + 1) as nat);
}

/// Distance from `p` to atom `a`, rounded down to whole ticks.
fn dist_to_atom(p: Point3, a: Point3) -> (r: i64)
    requires
        p.in_bounds(POS_LIMIT as int),
        a.in_bounds(BB_LIMIT as int),
    ensures
        r == sqrt_floor(dist_sq(p, a) as nat),
        0 <= r <= 2_100_000_000,
{
    let dx = p.x - a.x;
    let dy = p.y - a.y;
    let dz = p.z - a.z;
    let dxa: i64 = if dx < 0 { -dx } else { dx };
    let dya: i64 = if dy < 0 { -dy } else { dy };
    let dza: i64 = if dz < 0 { -dz } else { dz };
    proof {
        assert(dxa as int * dxa as int == dx as int * dx as int && dya as int * dya as int
            == dy as int * dy as int && dza as int * dza as int == dz as int * dz as int)
            by (nonlinear_arith)
            requires
                dxa as int == if dx < 0 { -(dx as int) } else { dx as int },
                dya as int == if dy < 0 { -(dy as int) } else { dy as int },
                dza as int == if dz < 0 { -(dz as int) } else { dz as int },
        ;
        assert(dxa as u128 * dxa as u128 <= 1_206_000_000u128 * 1_206_000_000u128
            && dya as u128 * dya as u128 <= 1_206_000_000u128 * 1_206_000_000u128
            && dza as u128 * dza as u128 <= 1_206_000_000u128 * 1_206_000_000u128)
            by (nonlinear_arith)
            requires
                0 <= dxa <= 1_206_000_000i64,
                0 <= dya <= 1_206_000_000i64,
                0 <= dza <= 1_206_000_000i64,
        ;
    }
    let d2: u128 = (dxa as u128) * (dxa as u128) + (dya as u128) * (dya as u128) + (dza as u128)
        * (dza as u128);
    proof {
        assert(d2 == dist_sq(p, a));
    }
    let r64 = isqrt(d2);
    proof {
        lemma_sqrt_floor_mono(d2 as nat, (2_100_000_000int * 2_100_000_000) as nat);
        lemma_sqrt_floor_square(2_100_000_000nat);
        assert(3 * (1_206_000_000int * 1_206_000_000) <= 2_100_000_000int
            * 2_100_000_000) by (nonlinear_arith);
    }
    r64 as i64
}


/// Evaluate the implicit surface value at `p` against the grid.
#[verifier::rlimit(50)]
pub fn sdf_at(g: &VoxelGrid, p: Point3, solvent_radius: i64, max_neighbours: u32) -> (d: i64)
    requires
        g.wf(),
        p.in_bounds(POS_LIMIT as int),
        -SOLVENT_LIMIT <= solvent_radius <= SOLVENT_LIMIT,
    ensures
        d == sdf_spec(*g, p, solvent_radius as int, max_neighbours as int),
        -SOLVENT_LIMIT <= d <= NO_CONTRIBUTION,
{
    let sr = solvent_radius;
    let mn = max_neighbours;
    if !(g.bb_min.x <= p.x && p.x < g.bb_max.x && g.bb_min.y <= p.y && p.y < g.bb_max.y
        && g.bb_min.z <= p.z && p.z < g.bb_max.z) {
        return NO_CONTRIBUTION;
    }
    proof {
        lemma_grid_tiles(*g);
    }
    let cpx = axis_cell_exec(p.x, g.bb_min.x, g.voxel_length, g.bb_size.x);
    let cpy = axis_cell_exec(p.y, g.bb_min.y, g.voxel_length, g.bb_size.y);
    let cpz = axis_cell_exec(p.z, g.bb_min.z, g.voxel_length, g.bb_size.z);

    let ghost target = scan_cells(*g, p, sr as int, mn as int, 0, 0, NO_CONTRIBUTION as int);
    let mut count: u32 = 0;
    let mut best: i64 = NO_CONTRIBUTION;
    let mut oi: usize = 0;
    while oi < 27
        invariant
            oi <= 27,
            g.wf(),
            p.in_bounds(POS_LIMIT as int),
            -SOLVENT_LIMIT <= sr <= SOLVENT_LIMIT,
            cpx == axis_cell(p.x as int, g.bb_min.x as int, g.voxel_length as int),
            cpy == axis_cell(p.y as int, g.bb_min.y as int, g.voxel_length as int),
            cpz == axis_cell(p.z as int, g.bb_min.z as int, g.voxel_length as int),
            0 <= cpx < g.bb_size.x,
            0 <= cpy < g.bb_size.y,
            0 <= cpz < g.bb_size.z,
            count <= mn,
            -SOLVENT_LIMIT <= best <= NO_CONTRIBUTION,
            scan_cells(*g, p, sr as int, mn as int, oi as int, count as int, best as int)
                == target,
        decreases 27 - oi,
    {
        let ox = (oi as i64) % 3 - 1;
        let oy = ((oi as i64) / 3) % 3 - 1;
        let oz = (oi as i64) / 9 - 1;
        let ncx = cpx + ox;
        let ncy = cpy + oy;
        let ncz = cpz + oz;
        let ghost items = stencil_items(*g, p, oi as int);
        let ghost ce = count as int;
        let ghost be = best as int;
        proof {
            assert(ox == stencil_dx(oi as int) && oy == stencil_dy(oi as int) && oz == stencil_dz(
                oi as int,
            ));
        }
        if 0 <= ncx && ncx < g.bb_size.x && 0 <= ncy && ncy < g.bb_size.y && 0 <= ncz && ncz
            < g.bb_size.z {
            let ci = flat_index_exec(ncx, ncy, ncz, g.bb_size.x, g.bb_size.y, g.bb_size.z);
            proof {
                lemma_bucket_in_range(*g, ci as int);
                assert(items == g.bucket(ci as int));
            }
            let vp = g.voxel_pointers[ci];
            let ghost sb_target = scan_bucket(items, 0, ce, be, p, sr as int, mn as int);
            let mut k: u32 = 0;
            while k < vp.length && count < mn
                invariant
                    g.wf(),
                    p.in_bounds(POS_LIMIT as int),
                    -SOLVENT_LIMIT <= sr <= SOLVENT_LIMIT,
                    k <= vp.length,
                    count <= mn,
                    -SOLVENT_LIMIT <= best <= NO_CONTRIBUTION,
                    0 <= ci < g.cell_count(),
                    vp == g.voxel_pointers@[ci as int],
                    items == g.bucket(ci as int),
                    scan_bucket(items, k as int, count as int, best as int, p, sr as int, mn as int)
                        == sb_target,
                decreases vp.length - k,
            {
                let total = g.voxels.len();
                proof {
                    lemma_bucket_in_range(*g, ci as int);
                    assert(vp.start + k < total);
                }
                let a = g.voxels[vp.start as usize + k as usize];
                proof {
                    assert(a == items[k as int]);
                    assert(a.in_bounds(BB_LIMIT as int));
                }
                let ad = dist_to_atom(p, a) - sr;
                proof {
                    assert(ad == atom_surface_dist(p, a, sr as int));
                }
                let ghost old_k = k as int;
                let ghost old_count = count as int;
                let ghost old_best = best as int;
                if ad < best {
                    best = ad;
                }
                count = count + 1;
                k = k + 1;
                proof {
                    assert(scan_bucket(items, old_k, old_count, old_best, p, sr as int, mn as int)
                        == scan_bucket(items, old_k + 1, old_count + 1, best as int, p, sr as int,
                        mn as int));
                }
            }
            proof {
                assert(scan_bucket(items, k as int, count as int, best as int, p, sr as int,
                    mn as int) == (count as int, best as int));
                assert((count as int, best as int) == sb_target);
                assert(scan_cells(*g, p, sr as int, mn as int, oi as int, ce, be) == scan_cells(
                    *g,
                    p,
                    sr as int,
                    mn as int,
                    oi as int + 1,
                    count as int,
                    best as int,
                ));
            }
        } else {
            proof {
                assert(items =~= Seq::<Point3>::empty());
                assert(scan_bucket(items, 0, ce, be, p, sr as int, mn as int) == (ce, be));
                assert(scan_cells(*g, p, sr as int, mn as int, oi as int, ce, be) == scan_cells(
                    *g,
                    p,
                    sr as int,
                    mn as int,
                    oi as int + 1,
                    ce,
                    be,
                ));
            }
        }
        oi += 1;
    }
    proof {
        assert(scan_cells(*g, p, sr as int, mn as int, 27, count as int, best as int)
            == (count as int, best as int));
    }
    best
}


/// Sentinel cache value meaning "no accumulated result yet".
pub const CACHE_SENTINEL: i64 = i64::MIN;

/// Half-width of the finite-difference stencil for surface normals.
pub const GRAD_EPS: i64 = 10;

/// Outcome of marching one ray.
#[derive(Clone, Copy, Debug, PartialEq, Eq, Structural)]
pub struct MarchResult {
    pub travel: i64,
    pub hit: bool,
}

/// The point reached after travelling `t` ticks from `eye` along `dir`
/// (a basis vector scaled by `SCALE`).
pub open spec fn ray_point(eye: Point3, dir: Point3, t: int) -> Point3 {
    Point3 {
        x: (eye.x + div_trunc_spec(dir.x * t, SCALE as int)) as i64,
        y: (eye.y + div_trunc_spec(dir.y * t, SCALE as int)) as i64,
        z: (eye.z + div_trunc_spec(dir.z * t, SCALE as int)) as i64,
    }
}

/// Compute the sample point at travel distance `t`.
fn ray_point_exec(eye: Point3, dir: Point3, t: i64) -> (r: Point3)
    requires
        eye.in_bounds(EYE_LIMIT as int),
        dir.in_bounds(SCALE as int),
        0 <= t <= FAR_LIMIT + MAX_STEP,
    ensures
        r == ray_point(eye, dir, t as int),
        r.in_bounds(RAY_LIMIT as int),
{
    proof {
        assert(-1_003_000_000_000 <= dir.x * t <= 1_003_000_000_000 && -1_003_000_000_000 <= dir.y
            * t <= 1_003_000_000_000 && -1_003_000_000_000 <= dir.z * t <= 1_003_000_000_000)
            by (nonlinear_arith)
            requires
                -1000 <= dir.x <= 1000,
                -1000 <= dir.y <= 1000,
                -1000 <= dir.z <= 1000,
                0 <= t <= 1_002_004_000,
        ;
    }
    let ox = div_trunc(dir.x * t, SCALE);
    let oy = div_trunc(dir.y * t, SCALE);
    let oz = div_trunc(dir.z * t, SCALE);
    Point3 { x: eye.x + ox, y: eye.y + oy, z: eye.z + oz }
}

/// The conservative march step for a surface estimate `d`: at least
/// `MIN_STEP`, at most one voxel edge. Atoms outside the stencil are at
/// least one voxel away, so a step of one voxel edge cannot overshoot them.
pub open spec fn step_of(d: int, voxel_length: int) -> int {
    if d < MIN_STEP {
        MIN_STEP as int
    } else if d > voxel_length {
        voxel_length
    } else {
        d
    }
}

/// Sphere-trace from travel distance `t` with `fuel` steps left: the final
/// travel distance and whether the surface was hit.
pub open spec fn march_spec(
    g: VoxelGrid,
    solvent_radius: int,
    max_neighbours: int,
    eye: Point3,
    dir: Point3,
    t: int,
    fuel: nat,
) -> (int, bool)
    decreases fuel,
{
    if fuel <= 0 {
        (t, false)
    } else if t > FAR_LIMIT {
        (t, false)
    } else {
        let d = sdf_spec(g, ray_point(eye, dir, t), solvent_radius, max_neighbours);
        if d < HIT_EPS {
            (t, true)
        } else {
            march_spec(
                g,
                solvent_radius,
                max_neighbours,
                eye,
                dir,
                t + step_of(d, g.voxel_length as int),
                (fuel - 1) as nat,
            )
        }
    }
}

/// March one ray from travel distance `t_start`, for at most `max_steps`
/// steps. The march never moves backward and never passes one step beyond
/// the far plane, so a cache seeded from its result stays bounded.
pub fn march_ray(
    g: &VoxelGrid,
    eye: Point3,
    dir: Point3,
    solvent_radius: i64,
    max_neighbours: u32,
    max_steps: u32,
    t_start: i64,
) -> (res: MarchResult)
    requires
        g.wf(),
        eye.in_bounds(EYE_LIMIT as int),
        dir.in_bounds(SCALE as int),
        -SOLVENT_LIMIT <= solvent_radius <= SOLVENT_LIMIT,
        0 <= t_start <= FAR_LIMIT + MAX_STEP,
    ensures
        (res.travel as int, res.hit) == march_spec(
            *g,
            solvent_radius as int,
            max_neighbours as int,
            eye,
            dir,
            t_start as int,
            max_steps as nat,
        ),
        t_start <= res.travel <= FAR_LIMIT + MAX_STEP,
{
    let mut t = t_start;
    let mut hit = false;
    let mut fuel = max_steps;
    loop
        invariant_except_break
            g.wf(),
            eye.in_bounds(EYE_LIMIT as int),
            dir.in_bounds(SCALE as int),
            -SOLVENT_LIMIT <= solvent_radius <= SOLVENT_LIMIT,
            0 <= t_start,
            t_start <= t <= FAR_LIMIT + MAX_STEP,
            !hit,
            march_spec(
                *g,
                solvent_radius as int,
                max_neighbours as int,
                eye,
                dir,
                t as int,
                fuel as nat,
            ) == march_spec(
                *g,
                solvent_radius as int,
                max_neighbours as int,
                eye,
                dir,
                t_start as int,
                max_steps as nat,
            ),
        ensures
            (t as int, hit) == march_spec(
                *g,
                solvent_radius as int,
                max_neighbours as int,
                eye,
                dir,
                t_start as int,
                max_steps as nat,
            ),
            t_start <= t <= FAR_LIMIT + MAX_STEP,
        decreases fuel,
    {
        if fuel == 0 {
            break;
        }
        if t > FAR_LIMIT {
            break;
        }
        let pos = ray_point_exec(eye, dir, t);
        let d = sdf_at(g, pos, solvent_radius, max_neighbours);
        if d < HIT_EPS {
            hit = true;
            break;
        }
        let step = if d < MIN_STEP {
            MIN_STEP
        } else if d > g.voxel_length {
            g.voxel_length
        } else {
            d
        };
        t = t + step;
        fuel = fuel - 1;
    }
    MarchResult { travel: t, hit }
}

/// Law: a march never moves backward and travels at most one voxel edge
/// per budgeted step; it lands on a converged sample point whenever it
/// reports a hit; and a miss either passed the far plane or made at least
/// the minimum progress on every budgeted step, so an empty neighbourhood
/// can never stall it.
pub proof fn lemma_march_props(
    g: VoxelGrid,
    solvent_radius: int,
    max_neighbours: int,
    eye: Point3,
    dir: Point3,
    t0: int,
    fuel: nat,
)
    requires
        g.wf(),
    ensures
        ({
            let r = march_spec(g, solvent_radius, max_neighbours, eye, dir, t0, fuel);
            &&& t0 <= r.0 <= t0 + fuel * VOXEL_LENGTH_LIMIT
            &&& r.1 ==> sdf_spec(g, ray_point(eye, dir, r.0), solvent_radius, max_neighbours)
                < HIT_EPS
            &&& !r.1 ==> (r.0 > FAR_LIMIT || r.0 >= t0 + fuel * MIN_STEP)
        }),
    decreases fuel,
{
    if fuel > 0 && t0 <= FAR_LIMIT {
        let d = sdf_spec(g, ray_point(eye, dir, t0), solvent_radius, max_neighbours);
        if d >= HIT_EPS {
            let t1 = t0 + step_of(d, g.voxel_length as int);
            lemma_march_props(g, solvent_radius, max_neighbours, eye, dir, t1, (fuel - 1) as nat);
        }
    }
}

/// `v` scaled to length `SCALE` (componentwise truncation), or a fixed
/// default direction for the zero vector.
pub open spec fn normalize_spec(v: Point3) -> Point3 {
    let l = sqrt_floor(norm_sq(v) as nat) as int;
    if l == 0 {
        Point3 { x: 0, y: 0, z: SCALE }
    } else {
        Point3 {
            x: div_trunc_spec(v.x * SCALE as int, l) as i64,
            y: div_trunc_spec(v.y * SCALE as int, l) as i64,
            z: div_trunc_spec(v.z * SCALE as int, l) as i64,
        }
    }
}

/// Length of `v`, rounded down to whole ticks.
pub fn norm_len(v: Point3) -> (r: i64)
    requires
        v.in_bounds(2_100_000_000),
    ensures
        r == sqrt_floor(norm_sq(v) as nat),
        0 <= r <= 3_700_000_000,
        v.x <= r && -r <= v.x && v.y <= r && -r <= v.y && v.z <= r && -r <= v.z,
{
    let xa: i64 = if v.x < 0 { -v.x } else { v.x };
    let ya: i64 = if v.y < 0 { -v.y } else { v.y };
    let za: i64 = if v.z < 0 { -v.z } else { v.z };
    proof {
        assert(xa as int * xa as int == v.x as int * v.x as int && ya as int * ya as int == v.y
            as int * v.y as int && za as int * za as int == v.z as int * v.z as int)
            by (nonlinear_arith)
            requires
                xa as int == if v.x < 0 { -(v.x as int) } else { v.x as int },
                ya as int == if v.y < 0 { -(v.y as int) } else { v.y as int },
                za as int == if v.z < 0 { -(v.z as int) } else { v.z as int },
        ;
        assert(xa as u128 * xa as u128 <= 2_100_000_000u128 * 2_100_000_000u128 && ya as u128 * ya
            as u128 <= 2_100_000_000u128 * 2_100_000_000u128 && za as u128 * za as u128
            <= 2_100_000_000u128 * 2_100_000_000u128) by (nonlinear_arith)
            requires
                0 <= xa <= 2_100_000_000i64,
                0 <= ya <= 2_100_000_000i64,
                0 <= za <= 2_100_000_000i64,
        ;
    }
    let n2: u128 = (xa as u128) * (xa as u128) + (ya as u128) * (ya as u128) + (za as u128) * (za
        as u128);
    proof {
        assert(n2 == norm_sq(v));
    }
    let r64 = isqrt(n2);
    proof {
        lemma_sqrt_floor_mono(n2 as nat, (3_700_000_000int * 3_700_000_000) as nat);
        lemma_sqrt_floor_square(3_700_000_000nat);
        assert(3 * (2_100_000_000int * 2_100_000_000) <= 3_700_000_000int * 3_700_000_000)
            by (nonlinear_arith);
        lemma_sqrt_floor_mono((xa as int * xa as int) as nat, n2 as nat);
        lemma_sqrt_floor_square(xa as nat);
        lemma_sqrt_floor_mono((ya as int * ya as int) as nat, n2 as nat);
        lemma_sqrt_floor_square(ya as nat);
        lemma_sqrt_floor_mono((za as int * za as int) as nat, n2 as nat);
        lemma_sqrt_floor_square(za as nat);
    }
    r64 as i64
}

/// Scale `v` to length `SCALE`, truncating toward zero.
fn normalize(v: Point3) -> (r: Point3)
    requires
        v.in_bounds(2_100_000_000),
    ensures
        r == normalize_spec(v),
        r.in_bounds(SCALE as int),
{
    let l = norm_len(v);
    if l == 0 {
        Point3 { x: 0, y: 0, z: SCALE }
    } else {
        proof {
            assert(-2_100_000_000_000 <= v.x * SCALE <= 2_100_000_000_000 && -2_100_000_000_000
                <= v.y * SCALE <= 2_100_000_000_000 && -2_100_000_000_000 <= v.z * SCALE
                <= 2_100_000_000_000) by (nonlinear_arith)
                requires
                    -2_100_000_000 <= v.x <= 2_100_000_000,
                    -2_100_000_000 <= v.y <= 2_100_000_000,
                    -2_100_000_000 <= v.z <= 2_100_000_000,
            ;
        }
        let rx = div_trunc(v.x * SCALE, l);
        let ry = div_trunc(v.y * SCALE, l);
        let rz = div_trunc(v.z * SCALE, l);
        proof {
            lemma_unit_component(v.x as int, l as int, rx as int);
            lemma_unit_component(v.y as int, l as int, ry as int);
            lemma_unit_component(v.z as int, l as int, rz as int);
        }
        Point3 { x: rx, y: ry, z: rz }
    }
}

/// A component no longer than the vector's length scales to at most `SCALE`.
proof fn lemma_unit_component(c: int, l: int, r: int)
    requires
        0 < l,
        -l <= c <= l,
        r == div_trunc_spec(c * SCALE as int, l),
    ensures
        -SCALE <= r <= SCALE,
{
    assert(-(l * SCALE as int) <= c * SCALE as int <= l * SCALE as int) by (nonlinear_arith)
        requires
            -l <= c <= l,
            0 < l,
    ;
    assert((l * SCALE as int) / l == SCALE as int) by {
        vstd::arithmetic::div_mod::lemma_div_multiples_vanish(SCALE as int, l);
        assert(l * SCALE as int == SCALE as int * l) by (nonlinear_arith);
    }
    if c * SCALE as int >= 0 {
        vstd::arithmetic::div_mod::lemma_div_is_ordered(c * SCALE as int, l * SCALE as int, l);
        vstd::arithmetic::div_mod::lemma_div_pos_is_pos(c * SCALE as int, l);
    } else {
        vstd::arithmetic::div_mod::lemma_div_is_ordered(-(c * SCALE as int), l * SCALE as int, l);
        vstd::arithmetic::div_mod::lemma_div_pos_is_pos(-(c * SCALE as int), l);
    }
}

/// Finite-difference estimate of the surface normal at `pos`.
pub open spec fn normal_spec(g: VoxelGrid, pos: Point3, solvent_radius: int, max_neighbours: int) -> Point3 {
    let gx = sdf_spec(
        g,
        Point3 { x: (pos.x + GRAD_EPS) as i64, y: pos.y, z: pos.z },
        solvent_radius,
        max_neighbours,
    ) - sdf_spec(
        g,
        Point3 { x: (pos.x - GRAD_EPS) as i64, y: pos.y, z: pos.z },
        solvent_radius,
        max_neighbours,
    );
    let gy = sdf_spec(
        g,
        Point3 { x: pos.x, y: (pos.y + GRAD_EPS) as i64, z: pos.z },
        solvent_radius,
        max_neighbours,
    ) - sdf_spec(
        g,
        Point3 { x: pos.x, y: (pos.y - GRAD_EPS) as i64, z: pos.z },
        solvent_radius,
        max_neighbours,
    );
    let gz = sdf_spec(
        g,
        Point3 { x: pos.x, y: pos.y, z: (pos.z + GRAD_EPS) as i64 },
        solvent_radius,
        max_neighbours,
    ) - sdf_spec(
        g,
        Point3 { x: pos.x, y: pos.y, z: (pos.z - GRAD_EPS) as i64 },
        solvent_radius,
        max_neighbours,
    );
    normalize_spec(Point3 { x: gx as i64, y: gy as i64, z: gz as i64 })
}

/// Estimate the surface normal at `pos` by central differences.
fn surface_normal(g: &VoxelGrid, pos: Point3, solvent_radius: i64, max_neighbours: u32) -> (n: Point3)
    requires
        g.wf(),
        pos.in_bounds(RAY_LIMIT as int),
        -SOLVENT_LIMIT <= solvent_radius <= SOLVENT_LIMIT,
    ensures
        n == normal_spec(*g, pos, solvent_radius as int, max_neighbours as int),
        n.in_bounds(SCALE as int),
{
    let gx = sdf_at(g, Point3 { x: pos.x + GRAD_EPS, y: pos.y, z: pos.z }, solvent_radius,
        max_neighbours) - sdf_at(g, Point3 { x: pos.x - GRAD_EPS, y: pos.y, z: pos.z },
        solvent_radius, max_neighbours);
    let gy = sdf_at(g, Point3 { x: pos.x, y: pos.y + GRAD_EPS, z: pos.z }, solvent_radius,
        max_neighbours) - sdf_at(g, Point3 { x: pos.x, y: pos.y - GRAD_EPS, z: pos.z },
        solvent_radius, max_neighbours);
    let gz = sdf_at(g, Point3 { x: pos.x, y: pos.y, z: pos.z + GRAD_EPS }, solvent_radius,
        max_neighbours) - sdf_at(g, Point3 { x: pos.x, y: pos.y, z: pos.z - GRAD_EPS },
        solvent_radius, max_neighbours);
    normalize(Point3 { x: gx, y: gy, z: gz })
}

/// Map a unit normal to a colour.
pub open spec fn shade_spec(n: Point3) -> Rgba {
    Rgba {
        r: ((n.x + SCALE) / 2) as i64,
        g: ((n.y + SCALE) / 2) as i64,
        b: ((n.z + SCALE) / 2) as i64,
        a: SCALE,
    }
}

/// Normalised device coordinate of a pixel column, in ticks.
pub open spec fn pixel_ndc_u(px: int, w: int) -> int {
    (2 * px + 1) * SCALE / w - SCALE
}

/// Normalised device coordinate of a pixel row, in ticks (top is positive).
pub open spec fn pixel_ndc_v(py: int, h: int) -> int {
    SCALE - (2 * py + 1) * SCALE / h
}

/// Direction of the ray through pixel `(px, py)`: the forward axis plus
/// the pixel's device coordinates along the right and up axes (a symmetric
/// ninety-degree field of view on both axes).
pub open spec fn ray_dir_spec(cam: CameraFrame, px: int, py: int, w: int, h: int) -> Point3 {
    let u = pixel_ndc_u(px, w);
    let v = pixel_ndc_v(py, h);
    normalize_spec(
        Point3 {
            x: (cam.forward.x * SCALE + cam.right.x * u + cam.up.x * v) as i64,
            y: (cam.forward.y * SCALE + cam.right.y * u + cam.up.y * v) as i64,
            z: (cam.forward.z * SCALE + cam.right.z * u + cam.up.z * v) as i64,
        },
    )
}

/// Compute the ray direction through pixel `(px, py)`.
fn ray_dir(cam: &CameraFrame, px: u32, py: u32, w: u32, h: u32) -> (r: Point3)
    requires
        cam.wf(),
        0 < w,
        0 < h,
        px < w,
        py < h,
    ensures
        r == ray_dir_spec(*cam, px as int, py as int, w as int, h as int),
        r.in_bounds(SCALE as int),
{
    let u = pixel_ndc_u_exec(px, w);
    let v = pixel_ndc_v_exec(py, h);
    proof {
        assert(-1_200_000 <= cam.right.x * u <= 1_200_000 && -1_200_000 <= cam.right.y * u
            <= 1_200_000 && -1_200_000 <= cam.right.z * u <= 1_200_000 && -1_200_000 <= cam.up.x
            * v <= 1_200_000 && -1_200_000 <= cam.up.y * v <= 1_200_000 && -1_200_000 <= cam.up.z
            * v <= 1_200_000 && -1_200_000 <= cam.forward.x * SCALE <= 1_200_000 && -1_200_000
            <= cam.forward.y * SCALE <= 1_200_000 && -1_200_000 <= cam.forward.z * SCALE
            <= 1_200_000) by (nonlinear_arith)
            requires
                -1200 <= cam.right.x <= 1200,
                -1200 <= cam.right.y <= 1200,
                -1200 <= cam.right.z <= 1200,
                -1200 <= cam.up.x <= 1200,
                -1200 <= cam.up.y <= 1200,
                -1200 <= cam.up.z <= 1200,
                -1200 <= cam.forward.x <= 1200,
                -1200 <= cam.forward.y <= 1200,
                -1200 <= cam.forward.z <= 1200,
                -1000 <= u <= 1000,
                -1000 <= v <= 1000,
        ;
    }
    let raw = Point3 {
        x: cam.forward.x * SCALE + cam.right.x * u + cam.up.x * v,
        y: cam.forward.y * SCALE + cam.right.y * u + cam.up.y * v,
        z: cam.forward.z * SCALE + cam.right.z * u + cam.up.z * v,
    };
    normalize(raw)
}

/// Column coordinate in ticks.
fn pixel_ndc_u_exec(px: u32, w: u32) -> (u: i64)
    requires
        0 < w,
        px < w,
    ensures
        u == pixel_ndc_u(px as int, w as int),
        -SCALE <= u < SCALE,
{
    let n = (2 * (px as i64) + 1) * SCALE;
    let q = n / (w as i64);
    proof {
        lemma_ndc_bounds(px as int, w as int);
    }
    q - SCALE
}

/// Row coordinate in ticks.
fn pixel_ndc_v_exec(py: u32, h: u32) -> (v: i64)
    requires
        0 < h,
        py < h,
    ensures
        v == pixel_ndc_v(py as int, h as int),
        -SCALE < v <= SCALE,
{
    let n = (2 * (py as i64) + 1) * SCALE;
    let q = n / (h as i64);
    proof {
        lemma_ndc_bounds(py as int, h as int);
    }
    SCALE - q
}

/// The scaled pixel fraction lies in `[0, 2 * SCALE)`.
proof fn lemma_ndc_bounds(p: int, w: int)
    requires
        0 < w,
        0 <= p < w,
    ensures
        0 <= (2 * p + 1) * SCALE / w < 2 * SCALE,
{
    let n = (2 * p + 1) * SCALE as int;
    assert(0 <= n && n < w * (2 * SCALE as int)) by (nonlinear_arith)
        requires
            0 <= p < w,
            n == (2 * p + 1) * SCALE as int,
    ;
    vstd::arithmetic::div_mod::lemma_div_pos_is_pos(n, w);
    vstd::arithmetic::div_mod::lemma_multiply_divide_lt(n, w, 2 * SCALE as int);
}

/// Everything one frame hands to the per-pixel evaluator.
#[derive(Clone, Copy, Debug, PartialEq, Eq, Structural)]
pub struct RaymarchGlobals {
    pub window_width: u32,
    pub window_height: u32,
    pub camera_origin: Point3,
    pub bb_min: Point3,
    pub bb_max: Point3,
    pub bb_diff: Point3,
    pub bb_size: Point3,
    pub voxel_length: i64,
    pub time: i64,
    pub solvent_radius: i64,
    pub max_neighbours: u32,
    pub max_steps: u32,
    pub save: i64,
}

impl Default for RaymarchGlobals {
    /// All-zero globals, as a frame starts from before it is filled in.
    fn default() -> (d: Self)
        ensures
            d == (RaymarchGlobals {
                window_width: 0u32,
                window_height: 0u32,
                camera_origin: zero_point(),
                bb_min: zero_point(),
                bb_max: zero_point(),
                bb_diff: zero_point(),
                bb_size: zero_point(),
                voxel_length: 0i64,
                time: 0i64,
                solvent_radius: 0i64,
                max_neighbours: 0u32,
                max_steps: 0u32,
                save: 0i64,
            }),
    {
        RaymarchGlobals {
            window_width: 0,
            window_height: 0,
            camera_origin: Point3 { x: 0, y: 0, z: 0 },
            bb_min: Point3 { x: 0, y: 0, z: 0 },
            bb_max: Point3 { x: 0, y: 0, z: 0 },
            bb_diff: Point3 { x: 0, y: 0, z: 0 },
            bb_size: Point3 { x: 0, y: 0, z: 0 },
            voxel_length: 0,
            time: 0,
            solvent_radius: 0,
            max_neighbours: 0,
            max_steps: 0,
            save: 0,
        }
    }
}

/// What the marcher writes for one pixel.
#[derive(Clone, Copy, Debug, PartialEq, Eq, Structural)]
pub struct PixelResult {
    pub color: Rgba,
    pub position: Point3,
    pub normal: Point3,
    pub travel: i64,
}

/// The full result for pixel `(px, py)`: marched colour, hit position and
/// normal (zero on a miss), and the refined travel distance for the cache.
pub open spec fn render_pixel_spec(
    g: VoxelGrid,
    solvent_radius: int,
    max_neighbours: int,
    max_steps: nat,
    cam: CameraFrame,
    px: int,
    py: int,
    w: int,
    h: int,
    seed: int,
) -> PixelResult {
    let dir = ray_dir_spec(cam, px, py, w, h);
    let t0: int = if seed == CACHE_SENTINEL {
        0
    } else {
        seed
    };
    let m = march_spec(g, solvent_radius, max_neighbours, cam.eye, dir, t0, max_steps);
    if m.1 {
        let pos = ray_point(cam.eye, dir, m.0);
        let n = normal_spec(g, pos, solvent_radius, max_neighbours);
        PixelResult { color: shade_spec(n), position: pos, normal: n, travel: m.0 as i64 }
    } else {
        PixelResult {
            color: background_color(),
            position: zero_point(),
            normal: zero_point(),
            travel: m.0 as i64,
        }
    }
}

/// March the ray of pixel `(px, py)`, seeded by the cache entry `seed`.
pub fn render_pixel(
    g: &VoxelGrid,
    cam: &CameraFrame,
    solvent_radius: i64,
    max_neighbours: u32,
    max_steps: u32,
    px: u32,
    py: u32,
    w: u32,
    h: u32,
    seed: i64,
) -> (r: PixelResult)
    requires
        g.wf(),
        cam.wf(),
        0 < w,
        0 < h,
        px < w,
        py < h,
        -SOLVENT_LIMIT <= solvent_radius <= SOLVENT_LIMIT,
        seed == CACHE_SENTINEL || 0 <= seed <= FAR_LIMIT + MAX_STEP,
    ensures
        r == render_pixel_spec(
            *g,
            solvent_radius as int,
            max_neighbours as int,
            max_steps as nat,
            *cam,
            px as int,
            py as int,
            w as int,
            h as int,
            seed as int,
        ),
        0 <= r.travel <= FAR_LIMIT + MAX_STEP,
        seed != CACHE_SENTINEL ==> seed <= r.travel,
{
    let dir = ray_dir(cam, px, py, w, h);
    let t0: i64 = if seed == CACHE_SENTINEL {
        0
    } else {
        seed
    };
    let m = march_ray(g, cam.eye, dir, solvent_radius, max_neighbours, max_steps, t0);
    if m.hit {
        let pos = ray_point_exec(cam.eye, dir, m.travel);
        let n = surface_normal(g, pos, solvent_radius, max_neighbours);
        let color = Rgba {
            r: (n.x + SCALE) / 2,
            g: (n.y + SCALE) / 2,
            b: (n.z + SCALE) / 2,
            a: SCALE,
        };
        PixelResult { color, position: pos, normal: n, travel: m.travel }
    } else {
        PixelResult {
            color: Rgba { r: 100, g: 100, b: 300, a: 1000 },
            position: Point3 { x: 0, y: 0, z: 0 },
            normal: Point3 { x: 0, y: 0, z: 0 },
            travel: m.travel,
        }
    }
}

} // verus!
