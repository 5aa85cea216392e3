//! The voxel grid used as acceleration structure for sphere marching.
//!
//! Atoms are recentered around the origin, a padded bounding box is rounded
//! outward to whole voxels, and every atom is bucketed into the voxel cell
//! that contains it. The buckets are stored flat in CSR form: one
//! `VoxelPointer` per cell gives the start and length of the cell's slice of
//! the flat atom buffer.

use vstd::prelude::*;
use vstd::multiset::Multiset;
use crate::geom::{Point3, COORD_LIMIT};
use crate::utils::{RoundToMultiple, abs_of, round_away_to_multiple, lemma_round_away_neg, lemma_round_away_pos};

verus! {

/// Padding added to the raw bounding box, one world unit per side, in ticks.
pub const PADDING: i64 = 1000;

/// Largest solvent radius the voxel sizing accounts for (two world units).
pub const SOLVENT_RADIUS_MAX: i64 = 2000;

/// Largest probe radius (in ticks) the grid arithmetic accounts for.
pub const PROBE_RADIUS_LIMIT: i64 = 1_000_000;

/// Largest voxel edge length: `2 * PROBE_RADIUS_LIMIT + 2 * SOLVENT_RADIUS_MAX`.
pub const VOXEL_LENGTH_LIMIT: i64 = 2_004_000;

/// Largest magnitude of a rounded bounding-box corner coordinate, in ticks.
pub const BB_LIMIT: i64 = 6_000_000;

/// Largest cell count along one axis.
pub const DIM_LIMIT: i64 = 1501;

/// Pointer to one grid cell's block of the flat atom buffer.
#[derive(Clone, Copy, Debug, PartialEq, Eq, Structural)]
pub struct VoxelPointer {
    pub start: u32,
    pub length: u32,
}

/// Rejected grid configurations.
#[derive(Clone, Copy, Debug, PartialEq, Eq, Structural)]
pub enum GridError {
    /// The probe radius was zero or negative.
    NonPositiveProbeRadius,
    /// The atom list was empty.
    NoAtoms,
}

/// Uniform voxel grid over the recentered atoms, with its bounding box and
/// the flat CSR layout of the per-cell buckets.
pub struct VoxelGrid {
    pub bb_min: Point3,
    pub bb_max: Point3,
    pub bb_diff: Point3,
    /// Cell counts per axis.
    pub bb_size: Point3,
    pub voxel_length: i64,
    /// Atom positions, grouped by cell, in cell order.
    pub voxels: Vec<Point3>,
    /// One pointer per cell, row-major (`x` fastest, then `y`, then `z`).
    pub voxel_pointers: Vec<VoxelPointer>,
}

/// Smallest entry of a non-empty sequence.
pub open spec fn seq_min(s: Seq<int>) -> int
    decreases s.len(),
{
    if s.len() <= 1 {
        s[0]
    } else {
        vstd::math::min(seq_min(s.drop_last()), s.last())
    }
}

/// Largest entry of a non-empty sequence.
pub open spec fn seq_max(s: Seq<int>) -> int
    decreases s.len(),
{
    if s.len() <= 1 {
        s[0]
    } else {
        vstd::math::max(seq_max(s.drop_last()), s.last())
    }
}

pub open spec fn xs_of(s: Seq<Point3>) -> Seq<int> {
    s.map_values(|p: Point3| p.x as int)
}

pub open spec fn ys_of(s: Seq<Point3>) -> Seq<int> {
    s.map_values(|p: Point3| p.y as int)
}

pub open spec fn zs_of(s: Seq<Point3>) -> Seq<int> {
    s.map_values(|p: Point3| p.z as int)
}

/// Halving with rounding toward zero.
pub open spec fn div2_trunc_spec(v: int) -> int {
    if v >= 0 {
        v / 2
    } else {
        -((-v) / 2)
    }
}

/// Centre of the atoms' bounding box, rounded toward zero per axis.
pub open spec fn center_of(s: Seq<Point3>) -> Point3 {
    Point3 {
        x: div2_trunc_spec(seq_min(xs_of(s)) + seq_max(xs_of(s))) as i64,
        y: div2_trunc_spec(seq_min(ys_of(s)) + seq_max(ys_of(s))) as i64,
        z: div2_trunc_spec(seq_min(zs_of(s)) + seq_max(zs_of(s))) as i64,
    }
}

/// `p` translated by `-c`.
pub open spec fn translated(p: Point3, c: Point3) -> Point3 {
    Point3 { x: (p.x - c.x) as i64, y: (p.y - c.y) as i64, z: (p.z - c.z) as i64 }
}

/// The atom list translated so its padded bounding box is centred at the origin.
pub open spec fn recentered(s: Seq<Point3>) -> Seq<Point3> {
    s.map_values(|p: Point3| translated(p, center_of(s)))
}

/// Which cell along one axis holds coordinate `v`.
pub open spec fn axis_cell(v: int, min_v: int, voxel_length: int) -> int {
    (v - min_v) / voxel_length
}

/// Row-major flattening of cell coordinates.
pub open spec fn linear_index(cx: int, cy: int, cz: int, sx: int, sy: int) -> int {
    sx * sy * cz + sx * cy + cx
}

/// The box `[mn, mx]` contains `p` with the padding margin on every side.
pub open spec fn in_box_with_margin(p: Point3, mn: Point3, mx: Point3) -> bool {
    &&& mn.x + PADDING <= p.x && p.x + PADDING <= mx.x
    &&& mn.y + PADDING <= p.y && p.y + PADDING <= mx.y
    &&& mn.z + PADDING <= p.z && p.z + PADDING <= mx.z
}

/// Flat slot `k` lies within cell `c`'s block of `ptrs`.
pub open spec fn slot_in(ptrs: Seq<VoxelPointer>, c: int, k: int) -> bool {
    ptrs[c].start <= k < ptrs[c].start + ptrs[c].length
}

/// Multiset of the atoms held by the first `n` buckets.
pub open spec fn bucket_ms_upto(bs: Seq<Vec<Point3>>, n: int) -> Multiset<Point3>
    decreases n,
{
    if n <= 0 {
        Multiset::empty()
    } else {
        bucket_ms_upto(bs, n - 1).add(bs[n - 1]@.to_multiset())
    }
}

/// The empty sequence holds the empty multiset.
proof fn lemma_empty_seq_ms()
    ensures
        Seq::<Point3>::empty().to_multiset() == Multiset::<Point3>::empty(),
{
    broadcast use vstd::seq_lib::group_to_multiset_ensures;

    vstd::multiset::lemma_multiset_empty_len(Seq::<Point3>::empty().to_multiset());
    assert(Seq::<Point3>::empty().to_multiset() =~= Multiset::<Point3>::empty());
}

/// A prefix of all-empty buckets holds the empty multiset.
proof fn lemma_bucket_ms_empty(bs: Seq<Vec<Point3>>, n: int)
    requires
        n <= bs.len(),
        forall|c: int| 0 <= c < bs.len() ==> #[trigger] bs[c]@.len() == 0,
    ensures
        bucket_ms_upto(bs, n) == Multiset::<Point3>::empty(),
    decreases n,
{
    broadcast use vstd::multiset::group_multiset_axioms;
    broadcast use vstd::seq_lib::group_to_multiset_ensures;

    if n > 0 {
        lemma_bucket_ms_empty(bs, n - 1);
        assert(bs[n - 1]@.to_multiset().len() == 0);
        vstd::multiset::lemma_multiset_empty_len(bs[n - 1]@.to_multiset());
        assert(bucket_ms_upto(bs, n) =~= Multiset::<Point3>::empty());
    }
}

/// Pushing an atom onto bucket `i` inserts it into the multiset of every
/// prefix that covers bucket `i` and leaves shorter prefixes unchanged.
proof fn lemma_bucket_ms_push(
    bs1: Seq<Vec<Point3>>,
    bs2: Seq<Vec<Point3>>,
    i: int,
    a: Point3,
    n: int,
)
    requires
        0 <= i < bs1.len(),
        bs2.len() == bs1.len(),
        n <= bs1.len(),
        forall|j: int| 0 <= j < bs1.len() && j != i ==> bs2[j] == bs1[j],
        bs2[i]@ == bs1[i]@.push(a),
    ensures
        bucket_ms_upto(bs2, n) == if i < n {
            bucket_ms_upto(bs1, n).insert(a)
        } else {
            bucket_ms_upto(bs1, n)
        },
    decreases n,
{
    broadcast use vstd::multiset::group_multiset_axioms;
    broadcast use vstd::seq_lib::group_to_multiset_ensures;

    if n > 0 {
        lemma_bucket_ms_push(bs1, bs2, i, a, n - 1);
        if i == n - 1 {
            assert(bs2[n - 1]@.to_multiset() =~= bs1[n - 1]@.to_multiset().insert(a));
            assert(bucket_ms_upto(bs2, n) =~= bucket_ms_upto(bs1, n).insert(a));
        } else if i < n - 1 {
            assert(bucket_ms_upto(bs2, n) =~= bucket_ms_upto(bs1, n).insert(a));
        } else {
            assert(bucket_ms_upto(bs2, n) =~= bucket_ms_upto(bs1, n));
        }
    }
}

/// Covering more buckets never shrinks the multiset.
proof fn lemma_bucket_ms_len_mono(bs: Seq<Vec<Point3>>, m: int, n: int)
    requires
        m <= n,
    ensures
        bucket_ms_upto(bs, m).len() <= bucket_ms_upto(bs, n).len(),
    decreases n - m,
{
    broadcast use vstd::multiset::group_multiset_axioms;

    if m < n {
        lemma_bucket_ms_len_mono(bs, m, n - 1);
    }
}

/// Flat index of the cell containing `p`, for a grid described by its
/// box minimum, voxel length and cell counts.
pub open spec fn cell_param(p: Point3, bb_min: Point3, voxel_length: int, sx: int, sy: int) -> int {
    linear_index(
        axis_cell(p.x as int, bb_min.x as int, voxel_length),
        axis_cell(p.y as int, bb_min.y as int, voxel_length),
        axis_cell(p.z as int, bb_min.z as int, voxel_length),
        sx,
        sy,
    )
}

/// Halve a value, rounding toward zero.
fn div2_trunc(v: i64) -> (r: i64)
    requires
        i64::MIN < v,
    ensures
        r == div2_trunc_spec(v as int),
        abs_of(r as int) <= abs_of(v as int),
        v - 1 <= 2 * r <= v + 1,
{
    proof {
        if v >= 0 {
            vstd::arithmetic::div_mod::lemma_fundamental_div_mod(v as int, 2);
        } else {
            vstd::arithmetic::div_mod::lemma_fundamental_div_mod(-(v as int), 2);
        }
    }
    if v >= 0 {
        v / 2
    } else {
        -((-v) / 2)
    }
}

/// Cell coordinate of `v` along one axis, for a point inside the box.
pub(crate) fn axis_cell_exec(v: i64, min_v: i64, voxel_length: i64, size_axis: i64) -> (c: i64)
    requires
        0 < voxel_length <= VOXEL_LENGTH_LIMIT,
        1 <= size_axis <= DIM_LIMIT,
        min_v <= v,
        v - min_v < size_axis * voxel_length,
    ensures
        c == axis_cell(v as int, min_v as int, voxel_length as int),
        0 <= c < size_axis,
{
    proof {
        assert(size_axis * voxel_length <= DIM_LIMIT * VOXEL_LENGTH_LIMIT) by (nonlinear_arith)
            requires
                0 < voxel_length <= VOXEL_LENGTH_LIMIT,
                1 <= size_axis <= DIM_LIMIT,
        ;
    }
    let c = (v - min_v) / voxel_length;
    proof {
        vstd::arithmetic::div_mod::lemma_div_pos_is_pos(v as int - min_v as int, voxel_length as int);
        assert(voxel_length as int * size_axis as int == size_axis as int * voxel_length as int)
            by (nonlinear_arith);
        vstd::arithmetic::div_mod::lemma_multiply_divide_lt(
            v as int - min_v as int,
            voxel_length as int,
            size_axis as int,
        );
    }
    c
}

/// Row-major flat index of a cell, bounded by the total cell count.
pub(crate) fn flat_index_exec(cx: i64, cy: i64, cz: i64, sx: i64, sy: i64, sz: i64) -> (idx: usize)
    requires
        0 <= cx < sx <= DIM_LIMIT,
        0 <= cy < sy <= DIM_LIMIT,
        0 <= cz < sz <= DIM_LIMIT,
    ensures
        idx == linear_index(cx as int, cy as int, cz as int, sx as int, sy as int),
        idx < sx * sy * sz,
{
    proof {
        lemma_linear_index_bounds(cx as int, cy as int, cz as int, sx as int, sy as int, sz as int);
        assert(0 <= sx * sy && sx * sy <= 2_253_001 && 0 <= sx * sy * cz
            && sx * sy * cz <= 3_381_754_501 && 0 <= sx * cy && sx * cy <= 2_253_001)
            by (nonlinear_arith)
            requires
                0 <= cx < sx <= DIM_LIMIT,
                0 <= cy < sy <= DIM_LIMIT,
                0 <= cz < sz <= DIM_LIMIT,
        ;
    }
    let idx64: u64 = (sx as u64) * (sy as u64) * (cz as u64) + (sx as u64) * (cy as u64) + (cx as u64);
    idx64 as usize
}

/// Distribute the recentered atoms into one bucket per grid cell.
fn bucket_atoms(
    ratoms: &Vec<Point3>,
    bb_min: Point3,
    bb_max: Point3,
    voxel_length: i64,
    sx: i64,
    sy: i64,
    sz: i64,
    ncells: usize,
) -> (bs: Vec<Vec<Point3>>)
    requires
        0 < voxel_length <= VOXEL_LENGTH_LIMIT,
        1 <= sx <= DIM_LIMIT,
        1 <= sy <= DIM_LIMIT,
        1 <= sz <= DIM_LIMIT,
        ncells == sx * sy * sz,
        bb_max.x - bb_min.x == sx * voxel_length,
        bb_max.y - bb_min.y == sy * voxel_length,
        bb_max.z - bb_min.z == sz * voxel_length,
        forall|i: int|
            0 <= i < ratoms@.len() ==> in_box_with_margin(#[trigger] ratoms@[i], bb_min, bb_max),
    ensures
        bs@.len() == ncells,
        forall|c: int, j: int|
            0 <= c < ncells && 0 <= j < bs@[c]@.len() ==> cell_param(
                #[trigger] bs@[c]@[j],
                bb_min,
                voxel_length as int,
                sx as int,
                sy as int,
            ) == c,
        forall|c: int, j: int|
            0 <= c < ncells && 0 <= j < bs@[c]@.len() ==> in_box_with_margin(
                #[trigger] bs@[c]@[j],
                bb_min,
                bb_max,
            ),
        bucket_ms_upto(bs@, ncells as int) == ratoms@.to_multiset(),
{
    let mut bs: Vec<Vec<Point3>> = Vec::new();
    while bs.len() < ncells
        invariant
            bs@.len() <= ncells,
            forall|c: int| 0 <= c < bs@.len() ==> #[trigger] bs@[c]@.len() == 0,
        decreases ncells - bs@.len(),
    {
        bs.push(Vec::new());
    }
    proof {
        lemma_bucket_ms_empty(bs@, ncells as int);
        lemma_empty_seq_ms();
        assert(ratoms@.subrange(0, 0) =~= Seq::<Point3>::empty());
    }
    let mut i: usize = 0;
    while i < ratoms.len()
        invariant
            i <= ratoms@.len(),
            bs@.len() == ncells,
            ncells == sx * sy * sz,
            0 < voxel_length <= VOXEL_LENGTH_LIMIT,
            1 <= sx <= DIM_LIMIT,
            1 <= sy <= DIM_LIMIT,
            1 <= sz <= DIM_LIMIT,
            bb_max.x - bb_min.x == sx * voxel_length,
            bb_max.y - bb_min.y == sy * voxel_length,
            bb_max.z - bb_min.z == sz * voxel_length,
            forall|j: int|
                0 <= j < ratoms@.len() ==> in_box_with_margin(#[trigger] ratoms@[j], bb_min, bb_max),
            forall|c: int, j: int|
                0 <= c < ncells && 0 <= j < bs@[c]@.len() ==> cell_param(
                    #[trigger] bs@[c]@[j],
                    bb_min,
                    voxel_length as int,
                    sx as int,
                    sy as int,
                ) == c,
            forall|c: int, j: int|
                0 <= c < ncells && 0 <= j < bs@[c]@.len() ==> in_box_with_margin(
                    #[trigger] bs@[c]@[j],
                    bb_min,
                    bb_max,
                ),
            bucket_ms_upto(bs@, ncells as int) == ratoms@.subrange(0, i as int).to_multiset(),
        decreases ratoms@.len() - i,
    {
        let a = ratoms[i];
        let cx = axis_cell_exec(a.x, bb_min.x, voxel_length, sx);
        let cy = axis_cell_exec(a.y, bb_min.y, voxel_length, sy);
        let cz = axis_cell_exec(a.z, bb_min.z, voxel_length, sz);
        let idx = flat_index_exec(cx, cy, cz, sx, sy, sz);
        let ghost bs_snap = bs@;
        bs[idx].push(a);
        proof {
            lemma_bucket_ms_push(bs_snap, bs@, idx as int, a, ncells as int);
            broadcast use vstd::seq_lib::group_to_multiset_ensures;

            assert(ratoms@.subrange(0, i + 1) =~= ratoms@.subrange(0, i as int).push(
                ratoms@[i as int],
            ));
        }
        i += 1;
    }
    proof {
        assert(ratoms@.subrange(0, ratoms@.len() as int) =~= ratoms@);
    }
    bs
}

/// In a CSR pointer table starting at zero, every flat slot below the end
/// of block `n - 1` lies in some block.
proof fn lemma_slot_covered(ptrs: Seq<VoxelPointer>, n: int, k: int)
    requires
        1 <= n <= ptrs.len(),
        ptrs[0].start == 0,
        forall|cc: int|
            0 <= cc < ptrs.len() - 1 ==> #[trigger] ptrs[cc].start + ptrs[cc].length
                == ptrs[cc + 1].start,
        0 <= k < ptrs[n - 1].start + ptrs[n - 1].length,
    ensures
        exists|cc: int| 0 <= cc < n && #[trigger] slot_in(ptrs, cc, k),
    decreases n,
{
    if ptrs[n - 1].start <= k {
        assert(slot_in(ptrs, n - 1, k));
    } else {
        lemma_slot_covered(ptrs, n - 1, k);
    }
}

/// Lay the buckets out flat: one contiguous block per cell, in cell order,
/// with a pointer table recording each block's start and length.
#[verifier::rlimit(50)]
fn flatten_buckets(bs: &Vec<Vec<Point3>>) -> (r: (Vec<Point3>, Vec<VoxelPointer>))
    requires
        1 <= bs@.len(),
        bucket_ms_upto(bs@, bs@.len() as int).len() < 0x1_0000_0000,
    ensures
        ({
            let (voxels, pointers) = r;
            &&& pointers@.len() == bs@.len()
            &&& pointers@[0].start == 0
            &&& forall|c: int|
                0 <= c < bs@.len() - 1 ==> #[trigger] pointers@[c].start + pointers@[c].length
                    == pointers@[c + 1].start
            &&& pointers@[bs@.len() - 1].start + pointers@[bs@.len() - 1].length
                == voxels@.len()
            &&& forall|c: int|
                0 <= c < bs@.len() ==> #[trigger] pointers@[c].length == bs@[c]@.len()
            &&& forall|c: int, j: int|
                0 <= c < bs@.len() && 0 <= j < bs@[c]@.len()
                    ==> voxels@[#[trigger] (pointers@[c].start + j)] == bs@[c]@[j]
            &&& voxels@.to_multiset() == bucket_ms_upto(bs@, bs@.len() as int)
        }),
{
    let mut voxels: Vec<Point3> = Vec::new();
    let mut pointers: Vec<VoxelPointer> = Vec::new();
    let mut run: u32 = 0;
    let mut c: usize = 0;
    proof {
        lemma_empty_seq_ms();
    }
    while c < bs.len()
        invariant
            c <= bs@.len(),
            1 <= bs@.len(),
            bucket_ms_upto(bs@, bs@.len() as int).len() < 0x1_0000_0000,
            pointers@.len() == c,
            run == voxels@.len(),
            voxels@.to_multiset() == bucket_ms_upto(bs@, c as int),
            c > 0 ==> pointers@[0].start == 0,
            forall|cc: int|
                0 <= cc < c - 1 ==> #[trigger] pointers@[cc].start + pointers@[cc].length
                    == pointers@[cc + 1].start,
            c > 0 ==> pointers@[c - 1].start + pointers@[c - 1].length == voxels@.len(),
            forall|cc: int| 0 <= cc < c ==> #[trigger] pointers@[cc].length == bs@[cc]@.len(),
            forall|cc: int|
                0 <= cc < c ==> #[trigger] pointers@[cc].start + pointers@[cc].length
                    <= voxels@.len(),
            forall|cc: int, j: int|
                0 <= cc < c && 0 <= j < bs@[cc]@.len()
                    ==> voxels@[#[trigger] (pointers@[cc].start + j)] == bs@[cc]@[j],
        decreases bs@.len() - c,
    {
        proof {
            broadcast use vstd::multiset::group_multiset_axioms;
            broadcast use vstd::seq_lib::group_to_multiset_ensures;

            lemma_bucket_ms_len_mono(bs@, c as int + 1, bs@.len() as int);
            assert(bucket_ms_upto(bs@, c as int + 1).len() == bucket_ms_upto(bs@, c as int).len()
                + bs@[c as int]@.to_multiset().len());
        }
        let ghost p_entry = pointers@;
        let ghost vsnap = voxels@;
        let bl_usize = bs[c].len();
        let bl = bl_usize as u32;
        pointers.push(VoxelPointer { start: run, length: bl });
        let mut j: usize = 0;
        while j < bl_usize
            invariant
                j <= bl_usize,
                c < bs@.len(),
                bl_usize == bs@[c as int]@.len(),
                voxels@ == vsnap + bs@[c as int]@.subrange(0, j as int),
            decreases bl_usize - j,
        {
            voxels.push(bs[c][j]);
            proof {
                assert(voxels@ =~= vsnap + bs@[c as int]@.subrange(0, j as int + 1));
            }
            j += 1;
        }
        proof {
            broadcast use vstd::multiset::group_multiset_axioms;
            broadcast use vstd::seq_lib::group_to_multiset_ensures;

            assert(bs@[c as int]@.subrange(0, bl_usize as int) =~= bs@[c as int]@);
            assert(voxels@ == vsnap + bs@[c as int]@);
            vstd::seq_lib::lemma_multiset_commutative(vsnap, bs@[c as int]@);
            assert(voxels@.to_multiset() =~= bucket_ms_upto(bs@, c as int + 1));
            assert(pointers@ == p_entry.push(VoxelPointer { start: run, length: bl }));
            assert(forall|cc: int| 0 <= cc < c ==> pointers@[cc] == p_entry[cc]);
            assert(forall|k: int| 0 <= k < vsnap.len() ==> voxels@[k] == vsnap[k]);
            assert(pointers@[c as int].start + pointers@[c as int].length == voxels@.len());
        }
        run = run + bl;
        c += 1;
    }
    (voxels, pointers)
}

/// A cell's row-major index is a bijection into `[0, sx * sy * sz)`.
pub proof fn lemma_linear_index_bounds(cx: int, cy: int, cz: int, sx: int, sy: int, sz: int)
    requires
        0 <= cx < sx <= DIM_LIMIT,
        0 <= cy < sy <= DIM_LIMIT,
        0 <= cz < sz <= DIM_LIMIT,
    ensures
        0 <= linear_index(cx, cy, cz, sx, sy) < sx * sy * sz,
        sx * sy * sz <= 3_381_754_501,
{
    assert(0 <= sx * sy * cz + sx * cy + cx < sx * sy * sz && sx * sy * sz <= 3_381_754_501)
        by (nonlinear_arith)
        requires
            0 <= cx < sx <= DIM_LIMIT,
            0 <= cy < sy <= DIM_LIMIT,
            0 <= cz < sz <= DIM_LIMIT,
    ;
}

impl VoxelGrid {
    /// Total number of cells.
    pub open spec fn cell_count(self) -> int {
        self.bb_size.x * self.bb_size.y * self.bb_size.z
    }

    /// Flat index of the cell containing point `p`.
    pub open spec fn cell_of(self, p: Point3) -> int {
        linear_index(
            axis_cell(p.x as int, self.bb_min.x as int, self.voxel_length as int),
            axis_cell(p.y as int, self.bb_min.y as int, self.voxel_length as int),
            axis_cell(p.z as int, self.bb_min.z as int, self.voxel_length as int),
            self.bb_size.x as int,
            self.bb_size.y as int,
        )
    }

    /// The box contains `p` with at least the padding margin on every side.
    pub open spec fn contains_with_margin(self, p: Point3) -> bool {
        in_box_with_margin(p, self.bb_min, self.bb_max)
    }

    /// The slice of the flat buffer owned by cell `c`.
    pub open spec fn bucket(self, c: int) -> Seq<Point3> {
        self.voxels@.subrange(
            self.voxel_pointers@[c].start as int,
            self.voxel_pointers@[c].start as int + self.voxel_pointers@[c].length as int,
        )
    }

    /// Flat slot `k` lies in cell `c`'s block.
    pub open spec fn slot_in_cell(self, k: int, c: int) -> bool {
        self.voxel_pointers@[c].start <= k
            < self.voxel_pointers@[c].start + self.voxel_pointers@[c].length
    }

    /// Well-formedness: bounded box geometry, exact voxel tiling, and a
    /// CSR layout whose buckets hold exactly the atoms of their cell.
    pub open spec fn wf(self) -> bool {
        let nc = self.cell_count();
        &&& 2 + 2 * SOLVENT_RADIUS_MAX <= self.voxel_length <= VOXEL_LENGTH_LIMIT
        &&& self.bb_min.in_bounds(BB_LIMIT as int) && self.bb_max.in_bounds(BB_LIMIT as int)
        &&& self.bb_min.x <= -self.voxel_length && self.voxel_length <= self.bb_max.x
        &&& self.bb_min.y <= -self.voxel_length && self.voxel_length <= self.bb_max.y
        &&& self.bb_min.z <= -self.voxel_length && self.voxel_length <= self.bb_max.z
        &&& self.bb_diff.x == self.bb_max.x - self.bb_min.x
        &&& self.bb_diff.y == self.bb_max.y - self.bb_min.y
        &&& self.bb_diff.z == self.bb_max.z - self.bb_min.z
        &&& self.bb_diff.x % self.voxel_length == 0
        &&& self.bb_diff.y % self.voxel_length == 0
        &&& self.bb_diff.z % self.voxel_length == 0
        &&& self.bb_size.x == self.bb_diff.x / self.voxel_length
        &&& self.bb_size.y == self.bb_diff.y / self.voxel_length
        &&& self.bb_size.z == self.bb_diff.z / self.voxel_length
        &&& 1 <= self.bb_size.x <= DIM_LIMIT
        &&& 1 <= self.bb_size.y <= DIM_LIMIT
        &&& 1 <= self.bb_size.z <= DIM_LIMIT
        &&& self.voxel_pointers@.len() == nc
        &&& self.voxel_pointers@[0].start == 0
        &&& forall|c: int|
            0 <= c < nc - 1 ==> #[trigger] self.voxel_pointers@[c].start
                + self.voxel_pointers@[c].length == self.voxel_pointers@[c + 1].start
        &&& self.voxel_pointers@[nc - 1].start + self.voxel_pointers@[nc - 1].length
            == self.voxels@.len()
        &&& forall|k: int|
            0 <= k < self.voxels@.len() ==> self.contains_with_margin(#[trigger] self.voxels@[k])
        &&& forall|k: int|
            0 <= k < self.voxels@.len() ==> 0 <= #[trigger] self.cell_of(self.voxels@[k]) < nc
                && self.slot_in_cell(k, self.cell_of(self.voxels@[k]))
    }
}


/// `g` is exactly what building a grid from `atoms` with probe radius
/// `radius_max` yields: well-formed, with the derived voxel length, the
/// padded rounded box, and the recentered atoms bucketed by cell.
pub open spec fn built_from(g: VoxelGrid, atoms: Seq<Point3>, radius_max: int) -> bool {
    &&& g.wf()
    &&& g.voxel_length == 2 * radius_max + 2 * SOLVENT_RADIUS_MAX
    &&& g.bb_min == expected_bb_min(atoms, g.voxel_length as int)
    &&& g.bb_max == expected_bb_max(atoms, g.voxel_length as int)
    &&& g.voxels@.to_multiset() == recentered(atoms).to_multiset()
    &&& g.voxels@.len() == atoms.len()
}

/// The box minimum the build produces: raw minimum, padded, recentered, and
/// rounded away from zero to a multiple of the voxel length.
pub open spec fn expected_bb_min(s: Seq<Point3>, vl: int) -> Point3 {
    let c = center_of(s);
    Point3 {
        x: round_away_to_multiple(seq_min(xs_of(s)) - PADDING - c.x, vl) as i64,
        y: round_away_to_multiple(seq_min(ys_of(s)) - PADDING - c.y, vl) as i64,
        z: round_away_to_multiple(seq_min(zs_of(s)) - PADDING - c.z, vl) as i64,
    }
}

/// The box maximum the build produces.
pub open spec fn expected_bb_max(s: Seq<Point3>, vl: int) -> Point3 {
    let c = center_of(s);
    Point3 {
        x: round_away_to_multiple(seq_max(xs_of(s)) + PADDING - c.x, vl) as i64,
        y: round_away_to_multiple(seq_max(ys_of(s)) + PADDING - c.y, vl) as i64,
        z: round_away_to_multiple(seq_max(zs_of(s)) + PADDING - c.z, vl) as i64,
    }
}

/// Componentwise minimum and maximum over all atoms.
fn raw_bounds(atoms: &Vec<Point3>) -> (r: (Point3, Point3))
    requires
        1 <= atoms@.len(),
        forall|i: int|
            0 <= i < atoms@.len() ==> (#[trigger] atoms@[i]).in_bounds(COORD_LIMIT as int),
    ensures
        ({
            let (mn, mx) = r;
            &&& mn.x == seq_min(xs_of(atoms@)) && mx.x == seq_max(xs_of(atoms@))
            &&& mn.y == seq_min(ys_of(atoms@)) && mx.y == seq_max(ys_of(atoms@))
            &&& mn.z == seq_min(zs_of(atoms@)) && mx.z == seq_max(zs_of(atoms@))
            &&& mn.in_bounds(COORD_LIMIT as int) && mx.in_bounds(COORD_LIMIT as int)
            &&& mn.x <= mx.x && mn.y <= mx.y && mn.z <= mx.z
            &&& forall|i: int|
                0 <= i < atoms@.len() ==> mn.x <= (#[trigger] atoms@[i]).x <= mx.x
                    && mn.y <= atoms@[i].y <= mx.y && mn.z <= atoms@[i].z <= mx.z
        }),
{
    let first = atoms[0];
    let mut mn = first;
    let mut mx = first;
    let mut i: usize = 1;
    proof {
        assert(xs_of(atoms@).subrange(0, 1).len() == 1);
        assert(xs_of(atoms@).subrange(0, 1)[0] == atoms@[0].x as int);
        assert(ys_of(atoms@).subrange(0, 1)[0] == atoms@[0].y as int);
        assert(zs_of(atoms@).subrange(0, 1)[0] == atoms@[0].z as int);
    }
    while i < atoms.len()
        invariant
            1 <= i <= atoms@.len(),
            forall|j: int|
                0 <= j < atoms@.len() ==> (#[trigger] atoms@[j]).in_bounds(COORD_LIMIT as int),
            mn.x == seq_min(xs_of(atoms@).subrange(0, i as int)),
            mn.y == seq_min(ys_of(atoms@).subrange(0, i as int)),
            mn.z == seq_min(zs_of(atoms@).subrange(0, i as int)),
            mx.x == seq_max(xs_of(atoms@).subrange(0, i as int)),
            mx.y == seq_max(ys_of(atoms@).subrange(0, i as int)),
            mx.z == seq_max(zs_of(atoms@).subrange(0, i as int)),
            mn.in_bounds(COORD_LIMIT as int),
            mx.in_bounds(COORD_LIMIT as int),
            mn.x <= mx.x && mn.y <= mx.y && mn.z <= mx.z,
            forall|j: int|
                0 <= j < i ==> mn.x <= (#[trigger] atoms@[j]).x <= mx.x
                    && mn.y <= atoms@[j].y <= mx.y && mn.z <= atoms@[j].z <= mx.z,
        decreases atoms@.len() - i,
    {
        let a = atoms[i];
        if a.x < mn.x {
            mn.x = a.x;
        }
        if a.y < mn.y {
            mn.y = a.y;
        }
        if a.z < mn.z {
            mn.z = a.z;
        }
        if a.x > mx.x {
            mx.x = a.x;
        }
        if a.y > mx.y {
            mx.y = a.y;
        }
        if a.z > mx.z {
            mx.z = a.z;
        }
        proof {
            assert(xs_of(atoms@).subrange(0, i + 1).drop_last() =~= xs_of(atoms@).subrange(
                0,
                i as int,
            ));
            assert(ys_of(atoms@).subrange(0, i + 1).drop_last() =~= ys_of(atoms@).subrange(
                0,
                i as int,
            ));
            assert(zs_of(atoms@).subrange(0, i + 1).drop_last() =~= zs_of(atoms@).subrange(
                0,
                i as int,
            ));
            assert(xs_of(atoms@).subrange(0, i + 1).last() == atoms@[i as int].x as int);
            assert(ys_of(atoms@).subrange(0, i + 1).last() == atoms@[i as int].y as int);
            assert(zs_of(atoms@).subrange(0, i + 1).last() == atoms@[i as int].z as int);
        }
        i += 1;
    }
    proof {
        assert(xs_of(atoms@).subrange(0, atoms@.len() as int) =~= xs_of(atoms@));
        assert(ys_of(atoms@).subrange(0, atoms@.len() as int) =~= ys_of(atoms@));
        assert(zs_of(atoms@).subrange(0, atoms@.len() as int) =~= zs_of(atoms@));
    }
    (mn, mx)
}

/// Translate every atom by `-ctr`.
fn recenter_atoms(atoms: &Vec<Point3>, ctr: Point3) -> (r: Vec<Point3>)
    requires
        forall|i: int|
            0 <= i < atoms@.len() ==> (#[trigger] atoms@[i]).in_bounds(COORD_LIMIT as int),
        ctr.in_bounds(COORD_LIMIT as int + PADDING as int),
    ensures
        r@.len() == atoms@.len(),
        forall|i: int| 0 <= i < atoms@.len() ==> #[trigger] r@[i] == translated(atoms@[i], ctr),
{
    let mut r: Vec<Point3> = Vec::new();
    let mut i: usize = 0;
    while i < atoms.len()
        invariant
            i <= atoms@.len(),
            r@.len() == i,
            forall|j: int|
                0 <= j < atoms@.len() ==> (#[trigger] atoms@[j]).in_bounds(COORD_LIMIT as int),
            ctr.in_bounds(COORD_LIMIT as int + PADDING as int),
            forall|j: int| 0 <= j < i ==> #[trigger] r@[j] == translated(atoms@[j], ctr),
        decreases atoms@.len() - i,
    {
        let a = atoms[i];
        r.push(Point3 { x: a.x - ctr.x, y: a.y - ctr.y, z: a.z - ctr.z });
        i += 1;
    }
    r
}

impl VoxelGrid {
    /// Build the voxel grid for `atoms` with probe radius `radius_max`.
    ///
    /// The voxel edge length is `2 * radius_max + 2 * SOLVENT_RADIUS_MAX`,
    /// sized so one cell's neighbourhood covers the largest possible
    /// solvent-mediated interaction distance. The atoms are recentered, the
    /// padded bounding box is rounded outward to whole voxels, and every
    /// atom lands in the bucket of the cell that contains it.
    #[verifier::rlimit(50)]
    pub fn new(radius_max: i64, atoms: &Vec<Point3>) -> (r: Result<VoxelGrid, GridError>)
        requires
            atoms@.len() < 0x1_0000_0000,
            radius_max <= PROBE_RADIUS_LIMIT,
            forall|i: int|
                0 <= i < atoms@.len() ==> (#[trigger] atoms@[i]).in_bounds(COORD_LIMIT as int),
        ensures
            r == Err::<VoxelGrid, GridError>(GridError::NonPositiveProbeRadius) <==> radius_max
                <= 0,
            r == Err::<VoxelGrid, GridError>(GridError::NoAtoms) <==> (0 < radius_max
                && atoms@.len() == 0),
            r matches Ok(g) ==> built_from(g, atoms@, radius_max as int),
    {
        if radius_max <= 0 {
            return Err(GridError::NonPositiveProbeRadius);
        }
        if atoms.len() == 0 {
            return Err(GridError::NoAtoms);
        }
        let voxel_length = 2 * radius_max + 2 * SOLVENT_RADIUS_MAX;

        let (mn, mx) = raw_bounds(atoms);

        // Pad the raw box by one world unit per side, then centre it on the
        // origin, translating box and atoms alike.
        let ctr = Point3 {
            x: div2_trunc(mn.x + mx.x),
            y: div2_trunc(mn.y + mx.y),
            z: div2_trunc(mn.z + mx.z),
        };
        let rmn = Point3 {
            x: (mn.x - PADDING) - ctr.x,
            y: (mn.y - PADDING) - ctr.y,
            z: (mn.z - PADDING) - ctr.z,
        };
        let rmx = Point3 {
            x: (mx.x + PADDING) - ctr.x,
            y: (mx.y + PADDING) - ctr.y,
            z: (mx.z + PADDING) - ctr.z,
        };
        proof {
            assert(ctr == center_of(atoms@));
            // The recentered box straddles the origin by at least the padding.
            assert(rmn.x <= -PADDING && rmn.y <= -PADDING && rmn.z <= -PADDING);
            assert(PADDING <= rmx.x && PADDING <= rmx.y && PADDING <= rmx.z);
        }

        // Round the box outward so it tiles exactly with voxels.
        let bb_min = Point3 {
            x: rmn.x.round_to_multiple(voxel_length),
            y: rmn.y.round_to_multiple(voxel_length),
            z: rmn.z.round_to_multiple(voxel_length),
        };
        let bb_max = Point3 {
            x: rmx.x.round_to_multiple(voxel_length),
            y: rmx.y.round_to_multiple(voxel_length),
            z: rmx.z.round_to_multiple(voxel_length),
        };
        proof {
            lemma_round_away_neg(rmn.x as int, voxel_length as int);
            lemma_round_away_neg(rmn.y as int, voxel_length as int);
            lemma_round_away_neg(rmn.z as int, voxel_length as int);
            lemma_round_away_pos(rmx.x as int, voxel_length as int);
            lemma_round_away_pos(rmx.y as int, voxel_length as int);
            lemma_round_away_pos(rmx.z as int, voxel_length as int);
        }

        let bb_diff = Point3 {
            x: bb_max.x - bb_min.x,
            y: bb_max.y - bb_min.y,
            z: bb_max.z - bb_min.z,
        };
        proof {
            lemma_diff_divides(bb_min.x as int, bb_max.x as int, voxel_length as int);
            lemma_diff_divides(bb_min.y as int, bb_max.y as int, voxel_length as int);
            lemma_diff_divides(bb_min.z as int, bb_max.z as int, voxel_length as int);
        }
        let sx = bb_diff.x / voxel_length;
        let sy = bb_diff.y / voxel_length;
        let sz = bb_diff.z / voxel_length;
        proof {
            lemma_size_bounds(bb_diff.x as int, voxel_length as int);
            lemma_size_bounds(bb_diff.y as int, voxel_length as int);
            lemma_size_bounds(bb_diff.z as int, voxel_length as int);
            assert(bb_diff.x == sx * voxel_length && bb_diff.y == sy * voxel_length
                && bb_diff.z == sz * voxel_length) by {
                lemma_exact_tiles(bb_diff.x as int, voxel_length as int);
                lemma_exact_tiles(bb_diff.y as int, voxel_length as int);
                lemma_exact_tiles(bb_diff.z as int, voxel_length as int);
            }
            assert(1 <= sx * sy <= 2_253_001 && 1 <= (sx * sy) * sz <= 3_381_754_501
                && (sx * sy) * sz == sx * sy * sz) by (nonlinear_arith)
                requires
                    1 <= sx <= DIM_LIMIT,
                    1 <= sy <= DIM_LIMIT,
                    1 <= sz <= DIM_LIMIT,
            ;
        }
        let ncells = ((sx * sy) * sz) as usize;

        let ratoms = recenter_atoms(atoms, ctr);
        proof {
            assert forall|i: int| 0 <= i < ratoms@.len() implies in_box_with_margin(
                #[trigger] ratoms@[i],
                bb_min,
                bb_max,
            ) by {
                assert(ratoms@[i] == translated(atoms@[i], ctr));
            }
        }

        let bs = bucket_atoms(&ratoms, bb_min, bb_max, voxel_length, sx, sy, sz, ncells);
        proof {
            broadcast use vstd::seq_lib::group_to_multiset_ensures;

        }
        let (voxels, voxel_pointers) = flatten_buckets(&bs);

        let g = VoxelGrid {
            bb_min,
            bb_max,
            bb_diff,
            bb_size: Point3 { x: sx, y: sy, z: sz },
            voxel_length,
            voxels,
            voxel_pointers,
        };
        proof {
            broadcast use vstd::seq_lib::group_to_multiset_ensures;

            assert(ratoms@ =~= recentered(atoms@));
            assert(g.voxels@.to_multiset() == ratoms@.to_multiset());
            assert(g.voxels@.len() == g.voxels@.to_multiset().len());
            assert(ratoms@.len() == ratoms@.to_multiset().len());
            assert(g.cell_count() == ncells);
            assert forall|k: int| 0 <= k < g.voxels@.len() implies 0 <= #[trigger] g.cell_of(
                g.voxels@[k],
            ) < g.cell_count() && g.slot_in_cell(k, g.cell_of(g.voxels@[k])) by {
                lemma_slot_covered(g.voxel_pointers@, ncells as int, k);
                let cc = choose|cc: int|
                    0 <= cc < ncells && #[trigger] slot_in(g.voxel_pointers@, cc, k);
                let j = k - g.voxel_pointers@[cc].start;
                assert(g.voxels@[g.voxel_pointers@[cc].start + j] == bs@[cc]@[j]);
                assert(cell_param(bs@[cc]@[j], bb_min, voxel_length as int, sx as int, sy as int)
                    == cc);
                assert(g.cell_of(g.voxels@[k]) == cc);
            }
            assert forall|k: int| 0 <= k < g.voxels@.len() implies g.contains_with_margin(
                #[trigger] g.voxels@[k],
            ) by {
                lemma_slot_covered(g.voxel_pointers@, ncells as int, k);
                let cc = choose|cc: int|
                    0 <= cc < ncells && #[trigger] slot_in(g.voxel_pointers@, cc, k);
                let j = k - g.voxel_pointers@[cc].start;
                assert(g.voxels@[g.voxel_pointers@[cc].start + j] == bs@[cc]@[j]);
                assert(in_box_with_margin(bs@[cc]@[j], bb_min, bb_max));
            }
            assert(g.wf());
        }
        Ok(g)
    }
}

/// The difference of two multiples of `m` is a multiple of `m`.
proof fn lemma_diff_divides(a: int, b: int, m: int)
    requires
        0 < m,
        a % m == 0,
        b % m == 0,
    ensures
        (b - a) % m == 0,
{
    vstd::arithmetic::div_mod::lemma_sub_mod_noop(b, a, m);
    assert((0int - 0int) % m == 0) by {
        vstd::arithmetic::div_mod::lemma_small_mod(0, m as nat);
    }
}

/// A positive multiple of `m` splits into whole tiles.
proof fn lemma_exact_tiles(d: int, m: int)
    requires
        0 < m,
        d % m == 0,
    ensures
        d == (d / m) * m,
{
    vstd::arithmetic::div_mod::lemma_fundamental_div_mod(d, m);
    assert(d == m * (d / m));
    assert(m * (d / m) == (d / m) * m) by (nonlinear_arith);
}

/// Cell counts derived from a rounded box are between 1 and `DIM_LIMIT`.
proof fn lemma_size_bounds(d: int, m: int)
    requires
        2 + 2 * SOLVENT_RADIUS_MAX <= m <= VOXEL_LENGTH_LIMIT,
        2 * m <= d,
        d <= 2 * (COORD_LIMIT + PADDING + 1) + 2 * m,
    ensures
        1 <= d / m <= DIM_LIMIT,
{
    vstd::arithmetic::div_mod::lemma_div_is_ordered(2 * m, d, m);
    assert((2 * m) / m == 2) by {
        vstd::arithmetic::div_mod::lemma_div_multiples_vanish(2, m);
        assert(2 * m == m * 2) by (nonlinear_arith);
    }
    let cap = 2 * (COORD_LIMIT + PADDING + 1);
    vstd::arithmetic::div_mod::lemma_div_is_ordered(d, cap + 2 * m, m);
    assert((cap + 2 * m) / m == cap / m + 2) by {
        vstd::arithmetic::div_mod::lemma_hoist_over_denominator(cap, 2, m as nat);
    }
    assert(cap / m <= cap / 4002) by {
        vstd::arithmetic::div_mod::lemma_div_is_ordered_by_denominator(cap, 4002, m);
    }
    assert(cap / 4002 == 1499) by {
        vstd::arithmetic::div_mod::lemma_fundamental_div_mod_converse(cap, 4002, 1499, 3004);
    }
}


/// Sum of the first `n` bucket lengths.
pub open spec fn lengths_sum(ptrs: Seq<VoxelPointer>, n: int) -> int
    decreases n,
{
    if n <= 0 {
        0
    } else {
        lengths_sum(ptrs, n - 1) + ptrs[n - 1].length
    }
}

/// In a well-formed grid the first `n` bucket lengths sum to the end of
/// block `n - 1`: the blocks are contiguous from zero.
proof fn lemma_lengths_sum_prefix(g: VoxelGrid, n: int)
    requires
        g.wf(),
        1 <= n <= g.cell_count(),
    ensures
        lengths_sum(g.voxel_pointers@, n) == g.voxel_pointers@[n - 1].start
            + g.voxel_pointers@[n - 1].length,
    decreases n,
{
    assert(lengths_sum(g.voxel_pointers@, n) == lengths_sum(g.voxel_pointers@, n - 1)
        + g.voxel_pointers@[n - 1].length);
    if n == 1 {
        assert(lengths_sum(g.voxel_pointers@, 0) == 0);
        assert(g.voxel_pointers@[0].start == 0);
    } else {
        lemma_lengths_sum_prefix(g, n - 1);
        assert(g.voxel_pointers@[n - 2].start + g.voxel_pointers@[n - 2].length
            == g.voxel_pointers@[n - 1].start);
    }
}

/// Law: the bucket lengths of a well-formed grid sum to the total atom
/// count of its flat buffer.
pub proof fn lemma_lengths_sum_is_atom_count(g: VoxelGrid)
    requires
        g.wf(),
    ensures
        lengths_sum(g.voxel_pointers@, g.cell_count()) == g.voxels@.len(),
{
    assert(1 <= g.cell_count()) by (nonlinear_arith)
        requires
            1 <= g.bb_size.x && 1 <= g.bb_size.y && 1 <= g.bb_size.z,
    ;
    lemma_lengths_sum_prefix(g, g.cell_count());
}

/// Block starts are non-decreasing, and block `c1` ends before block `c2`
/// starts whenever `c1 < c2`.
proof fn lemma_csr_monotone(g: VoxelGrid, c1: int, c2: int)
    requires
        g.wf(),
        0 <= c1 < c2 < g.cell_count(),
    ensures
        g.voxel_pointers@[c1].start + g.voxel_pointers@[c1].length
            <= g.voxel_pointers@[c2].start,
    decreases c2 - c1,
{
    if c1 + 1 < c2 {
        lemma_csr_monotone(g, c1 + 1, c2);
    }
}

/// A well-formed grid's box tiles exactly into whole voxels.
pub proof fn lemma_grid_tiles(g: VoxelGrid)
    requires
        g.wf(),
    ensures
        g.bb_diff.x == g.bb_size.x * g.voxel_length,
        g.bb_diff.y == g.bb_size.y * g.voxel_length,
        g.bb_diff.z == g.bb_size.z * g.voxel_length,
{
    lemma_exact_tiles(g.bb_diff.x as int, g.voxel_length as int);
    lemma_exact_tiles(g.bb_diff.y as int, g.voxel_length as int);
    lemma_exact_tiles(g.bb_diff.z as int, g.voxel_length as int);
}

/// Every bucket's block lies within the flat atom buffer.
pub proof fn lemma_bucket_in_range(g: VoxelGrid, c: int)
    requires
        g.wf(),
        0 <= c < g.cell_count(),
    ensures
        g.voxel_pointers@[c].start + g.voxel_pointers@[c].length <= g.voxels@.len(),
{
    if c < g.cell_count() - 1 {
        lemma_csr_monotone(g, c, g.cell_count() - 1);
    }
}

/// Law: a built grid's bounding box contains every recentered atom with
/// the full padding margin on every side.
pub proof fn lemma_built_grid_contains_atoms(
    g: VoxelGrid,
    atoms: Seq<Point3>,
    radius_max: int,
    i: int,
)
    requires
        built_from(g, atoms, radius_max),
        0 <= i < atoms.len(),
    ensures
        in_box_with_margin(recentered(atoms)[i], g.bb_min, g.bb_max),
{
    broadcast use vstd::seq_lib::group_to_multiset_ensures;

    let a = recentered(atoms)[i];
    assert(recentered(atoms).contains(a));
    assert(recentered(atoms).to_multiset().count(a) > 0);
    assert(g.voxels@.to_multiset().count(a) > 0);
    assert(g.voxels@.contains(a));
    let k = choose|k: int| 0 <= k < g.voxels@.len() && g.voxels@[k] == a;
    assert(g.contains_with_margin(g.voxels@[k]));
}

/// Law: every atom of a well-formed grid lies in the bucket of the cell
/// that contains it, and in no other bucket.
pub proof fn lemma_atom_in_exactly_one_bucket(g: VoxelGrid, k: int)
    requires
        g.wf(),
        0 <= k < g.voxels@.len(),
    ensures
        g.slot_in_cell(k, g.cell_of(g.voxels@[k])),
        forall|c: int|
            0 <= c < g.cell_count() && c != g.cell_of(g.voxels@[k]) ==> !g.slot_in_cell(k, c),
{
    let home = g.cell_of(g.voxels@[k]);
    assert forall|c: int|
        0 <= c < g.cell_count() && c != home implies !g.slot_in_cell(k, c) by {
        if c < home {
            lemma_csr_monotone(g, c, home);
        } else {
            lemma_csr_monotone(g, home, c);
        }
    }
}

} // verus!
