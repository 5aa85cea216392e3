//! The application driver: scene state, input handling, and the per-frame
//! march over every pixel.
//!
//! The embedding (window, GPU or CPU dispatch, file loading, and the
//! trigonometric camera basis) hands in plain values — input deltas, atom
//! lists, a `CameraFrame` — and takes back the frame's image and buffers.

use vstd::prelude::*;
use vstd::pervasive::unreached;
use crate::geom::{Point3, norm_sq, sqrt_floor, COORD_LIMIT};
use crate::grid::{VoxelGrid, GridError, built_from, PROBE_RADIUS_LIMIT};
use crate::camera::{RotationCamera, clamped, DISTANCE_LIMIT};
use crate::cache::DistanceCache;
use crate::march::{
    CameraFrame, RaymarchGlobals, Rgba, render_pixel, render_pixel_spec, norm_len,
    CACHE_SENTINEL, SOLVENT_LIMIT,
};

verus! {

/// Largest window extent along either axis, in pixels.
pub const WINDOW_LIMIT: u32 = 16384;

/// A window event, reduced to the plain values the scene logic reads.
#[derive(Clone, Copy, Debug, PartialEq, Eq, Structural)]
pub enum InputEvent {
    /// A mouse button changed state.
    MouseInput { pressed: bool, left_button: bool },
    /// The scroll wheel moved by `delta` line steps (in thousandths).
    MouseWheel { delta: i64 },
    /// The cursor moved to window position `(x, y)`, in pixels.
    CursorMoved { x: i64, y: i64 },
}

/// A raw device event, reduced to plain values.
#[derive(Clone, Copy, Debug, PartialEq, Eq, Structural)]
pub enum DeviceEvent {
    /// The mouse moved by `(dx, dy)` millidegree steps.
    MouseMotion { dx: i64, dy: i64 },
}

/// Width of the options panel: clicks to its left do not grab the camera.
pub const PANEL_WIDTH: i64 = 200;

/// One frame's outputs: the image plus the position and normal buffers an
/// ambient-occlusion post-process reads, and the globals bundle the frame
/// was rendered with.
pub struct FrameOutput {
    pub color: Vec<Rgba>,
    pub positions: Vec<Point3>,
    pub normals: Vec<Point3>,
    pub globals: RaymarchGlobals,
}

/// The scene: camera, voxel grid, tunables, and the distance cache.
pub struct Application {
    pub width: u32,
    pub height: u32,
    pub camera: RotationCamera,
    /// Set by every camera or tunable mutation; a frame rendered with it
    /// set discards the distance cache first.
    pub camera_changed: bool,
    pub voxel_grid: VoxelGrid,
    pub solvent_radius: i64,
    pub max_neighbours: u32,
    pub max_steps: u32,
    pub save: i64,
    pub distance_cache: DistanceCache,
    pub mouse_pressed: bool,
    pub mouse_x: i64,
    pub mouse_y: i64,
}

/// The built-in scene: three atoms near the origin.
pub fn demo_atoms() -> (r: Vec<Point3>)
    ensures
        r@ == seq![
            Point3 { x: 1500i64, y: 0i64, z: 0i64 },
            Point3 { x: -1500i64, y: 0i64, z: 0i64 },
            Point3 { x: 0i64, y: 2500i64, z: 0i64 },
        ],
        forall|i: int| 0 <= i < r@.len() ==> (#[trigger] r@[i]).in_bounds(COORD_LIMIT as int),
{
    let mut r: Vec<Point3> = Vec::new();
    r.push(Point3 { x: 1500, y: 0, z: 0 });
    r.push(Point3 { x: -1500, y: 0, z: 0 });
    r.push(Point3 { x: 0, y: 2500, z: 0 });
    proof {
        assert(r@ =~= seq![
            Point3 { x: 1500i64, y: 0i64, z: 0i64 },
            Point3 { x: -1500i64, y: 0i64, z: 0i64 },
            Point3 { x: 0i64, y: 2500i64, z: 0i64 },
        ]);
    }
    r
}

/// The probe radius the built-in scene is gridded with.
pub const DEMO_PROBE_RADIUS: i64 = 2000;

impl Application {
    /// Consistent scene state.
    pub open spec fn wf(self) -> bool {
        &&& self.voxel_grid.wf()
        &&& self.camera.wf()
        &&& -SOLVENT_LIMIT <= self.solvent_radius <= SOLVENT_LIMIT
        &&& self.distance_cache.wf()
        &&& self.distance_cache.values@.len() == self.width * self.height
        &&& 0 < self.width <= WINDOW_LIMIT
        &&& 0 < self.height <= WINDOW_LIMIT
    }

    /// A scene of the built-in atoms, with the camera half a box diagonal
    /// away, default tunables, and an empty distance cache.
    pub fn new(width: u32, height: u32) -> (a: Application)
        requires
            0 < width <= WINDOW_LIMIT,
            0 < height <= WINDOW_LIMIT,
        ensures
            a.wf(),
            a.width == width,
            a.height == height,
            a.camera_changed,
            built_from(a.voxel_grid, seq![
                Point3 { x: 1500i64, y: 0i64, z: 0i64 },
                Point3 { x: -1500i64, y: 0i64, z: 0i64 },
                Point3 { x: 0i64, y: 2500i64, z: 0i64 },
            ], DEMO_PROBE_RADIUS as int),
            a.camera.distance == clamped(
                sqrt_floor(norm_sq(a.voxel_grid.bb_diff) as nat) as int / 2,
                DISTANCE_LIMIT as int,
            ),
            a.camera.yaw == -90_000 && a.camera.pitch == 0 && a.camera.speed == 1000,
            a.solvent_radius == 716,
            a.max_neighbours == 15,
            a.max_steps == 8,
            a.save == 0,
            forall|i: int|
                0 <= i < a.distance_cache.values@.len()
                    ==> #[trigger] a.distance_cache.values@[i] == CACHE_SENTINEL,
            !a.mouse_pressed,
    {
        let atoms = demo_atoms();
        let grid_r = VoxelGrid::new(DEMO_PROBE_RADIUS, &atoms);
        proof {
            assert(atoms@.len() == 3);
        }
        let voxel_grid = match grid_r {
            Ok(g) => g,
            Err(e) => {
                proof {
                    assert(e is NonPositiveProbeRadius || e is NoAtoms);
                    assert(false);
                }
                unreached()
            },
        };
        let diag = norm_len(voxel_grid.bb_diff);
        let camera = RotationCamera::new(diag / 2);
        proof {
            lemma_window_area(width as int, height as int);
        }
        let n = (width as usize) * (height as usize);
        Application {
            width,
            height,
            camera,
            camera_changed: true,
            voxel_grid,
            solvent_radius: 716,
            max_neighbours: 15,
            max_steps: 8,
            save: 0,
            distance_cache: DistanceCache::new(n),
            mouse_pressed: false,
            mouse_x: 0,
            mouse_y: 0,
        }
    }

    /// Adopt a new window size and start the distance cache afresh.
    pub fn resize(&mut self, width: u32, height: u32)
        requires
            0 < width <= WINDOW_LIMIT,
            0 < height <= WINDOW_LIMIT,
            old(self).wf(),
        ensures
            final(self).wf(),
            final(self).width == width,
            final(self).height == height,
            final(self).distance_cache.values@.len() == width * height,
            forall|i: int|
                0 <= i < final(self).distance_cache.values@.len()
                    ==> #[trigger] final(self).distance_cache.values@[i] == CACHE_SENTINEL,
            final(self).camera == old(self).camera,
            final(self).camera_changed == old(self).camera_changed,
            final(self).voxel_grid == old(self).voxel_grid,
            final(self).solvent_radius == old(self).solvent_radius,
            final(self).max_neighbours == old(self).max_neighbours,
            final(self).max_steps == old(self).max_steps,
    {
        self.width = width;
        self.height = height;
        proof {
            lemma_window_area(width as int, height as int);
        }
        let n = (width as usize) * (height as usize);
        self.distance_cache = DistanceCache::new(n);
    }

    /// Replace the molecule: build a grid for the new atoms, discard the
    /// old grid wholesale on success, and keep the scene untouched on
    /// failure.
    pub fn load_molecule(&mut self, radius_max: i64, atoms: &Vec<Point3>) -> (r: Result<
        (),
        GridError,
    >)
        requires
            old(self).wf(),
            atoms@.len() < 0x1_0000_0000,
            radius_max <= PROBE_RADIUS_LIMIT,
            forall|i: int|
                0 <= i < atoms@.len() ==> (#[trigger] atoms@[i]).in_bounds(COORD_LIMIT as int),
        ensures
            final(self).wf(),
            r == Err::<(), GridError>(GridError::NonPositiveProbeRadius) <==> radius_max <= 0,
            r == Err::<(), GridError>(GridError::NoAtoms) <==> (0 < radius_max && atoms@.len()
                == 0),
            r is Ok ==> built_from(final(self).voxel_grid, atoms@, radius_max as int)
                && final(self).camera_changed,
            r is Err ==> *final(self) == *old(self),
            final(self).width == old(self).width && final(self).height == old(self).height,
            final(self).camera == old(self).camera,
            final(self).solvent_radius == old(self).solvent_radius,
            final(self).max_neighbours == old(self).max_neighbours,
            final(self).max_steps == old(self).max_steps,
            final(self).distance_cache == old(self).distance_cache,
    {
        match VoxelGrid::new(radius_max, atoms) {
            Ok(g) => {
                self.voxel_grid = g;
                self.camera_changed = true;
                Ok(())
            },
            Err(e) => Err(e),
        }
    }

    pub fn solvent_radius(&self) -> (r: i64)
        ensures
            r == self.solvent_radius,
    {
        self.solvent_radius
    }

    /// Adopt any solvent radius within the fixed-point range, unclamped:
    /// range policy belongs to the embedding's controls, not the core.
    pub fn set_solvent_radius(&mut self, solvent_radius: i64)
        requires
            -SOLVENT_LIMIT <= solvent_radius <= SOLVENT_LIMIT,
        ensures
            *final(self) == (Application {
                solvent_radius: solvent_radius,
                camera_changed: true,
                ..*old(self)
            }),
    {
        self.solvent_radius = solvent_radius;
        self.camera_changed = true;
    }

    pub fn max_neighbours(&self) -> (r: u32)
        ensures
            r == self.max_neighbours,
    {
        self.max_neighbours
    }

    pub fn set_max_neighbours(&mut self, max_neighbours: u32)
        ensures
            *final(self) == (Application {
                max_neighbours: max_neighbours,
                camera_changed: true,
                ..*old(self)
            }),
    {
        self.max_neighbours = max_neighbours;
        self.camera_changed = true;
    }

    pub fn max_steps(&self) -> (r: u32)
        ensures
            r == self.max_steps,
    {
        self.max_steps
    }

    pub fn set_max_steps(&mut self, max_steps: u32)
        ensures
            *final(self) == (Application {
                max_steps: max_steps,
                camera_changed: true,
                ..*old(self)
            }),
    {
        self.max_steps = max_steps;
        self.camera_changed = true;
    }

    /// React to a window event: a left click grabs the camera only when
    /// the cursor is off the options panel, the wheel zooms, and cursor
    /// moves are remembered for that panel test.
    pub fn window_event(&mut self, event: &InputEvent)
        ensures
            match *event {
                InputEvent::MouseInput { pressed, left_button } => *final(self) == (Application {
                    mouse_pressed: left_button && pressed && old(self).mouse_x >= PANEL_WIDTH,
                    ..*old(self)
                }) || (!left_button && *final(self) == *old(self)),
                InputEvent::MouseWheel { delta } => *final(self) == (Application {
                    camera: final(self).camera,
                    camera_changed: true,
                    ..*old(self)
                }) && final(self).camera == (RotationCamera {
                    distance: final(self).camera.distance,
                    ..old(self).camera
                }) && final(self).camera.distance == clamped(
                    old(self).camera.distance - crate::geom::div_trunc_spec(
                        delta * old(self).camera.speed,
                        1000,
                    ),
                    DISTANCE_LIMIT as int,
                ),
                InputEvent::CursorMoved { x, y } => *final(self) == (Application {
                    mouse_x: x,
                    mouse_y: y,
                    ..*old(self)
                }),
            },
            old(self).wf() ==> final(self).wf(),
    {
        match *event {
            InputEvent::MouseInput { pressed, left_button } => {
                if left_button {
                    self.mouse_pressed = pressed && self.mouse_x >= PANEL_WIDTH;
                }
            },
            InputEvent::MouseWheel { delta } => {
                self.camera.zoom(delta);
                self.camera_changed = true;
            },
            InputEvent::CursorMoved { x, y } => {
                self.mouse_x = x;
                self.mouse_y = y;
            },
        }
    }

    /// React to raw mouse motion: orbit the camera while it is grabbed.
    pub fn device_event(&mut self, event: &DeviceEvent)
        ensures
            match *event {
                DeviceEvent::MouseMotion { dx, dy } => if old(self).mouse_pressed {
                    *final(self) == (Application {
                        camera: final(self).camera,
                        camera_changed: true,
                        ..*old(self)
                    }) && final(self).camera == (RotationCamera {
                        yaw: final(self).camera.yaw,
                        pitch: final(self).camera.pitch,
                        ..old(self).camera
                    }) && final(self).camera.yaw == clamped(
                        old(self).camera.yaw + dx,
                        crate::camera::ANGLE_LIMIT as int,
                    ) && final(self).camera.pitch == clamped(
                        old(self).camera.pitch + dy,
                        crate::camera::ANGLE_LIMIT as int,
                    )
                } else {
                    *final(self) == *old(self)
                },
            },
            old(self).wf() ==> final(self).wf(),
    {
        match *event {
            DeviceEvent::MouseMotion { dx, dy } => {
                if self.mouse_pressed {
                    self.camera.rotate(dx, dy);
                    self.camera_changed = true;
                }
            },
        }
    }

    /// The per-frame globals bundle, assembled from the current state so
    /// every field the evaluator reads is present and current.
    pub fn globals(&self, camera_origin: Point3, time: i64) -> (g: RaymarchGlobals)
        ensures
            g == (RaymarchGlobals {
                window_width: self.width,
                window_height: self.height,
                camera_origin: camera_origin,
                bb_min: self.voxel_grid.bb_min,
                bb_max: self.voxel_grid.bb_max,
                bb_diff: self.voxel_grid.bb_diff,
                bb_size: self.voxel_grid.bb_size,
                voxel_length: self.voxel_grid.voxel_length,
                time: time,
                solvent_radius: self.solvent_radius,
                max_neighbours: self.max_neighbours,
                max_steps: self.max_steps,
                save: self.save,
            }),
    {
        RaymarchGlobals {
            window_width: self.width,
            window_height: self.height,
            camera_origin,
            bb_min: self.voxel_grid.bb_min,
            bb_max: self.voxel_grid.bb_max,
            bb_diff: self.voxel_grid.bb_diff,
            bb_size: self.voxel_grid.bb_size,
            voxel_length: self.voxel_grid.voxel_length,
            time,
            solvent_radius: self.solvent_radius,
            max_neighbours: self.max_neighbours,
            max_steps: self.max_steps,
            save: self.save,
        }
    }

    /// The cache entry a pixel's march is seeded with this frame: the
    /// sentinel after a camera change, else the accumulated value.
    pub open spec fn frame_seed(self, p: int) -> int {
        if self.camera_changed {
            CACHE_SENTINEL as int
        } else {
            self.distance_cache.values@[p] as int
        }
    }

    /// Pixel `q`'s outputs `(c, pos, nrm, trv)` are exactly what marching
    /// its ray against the scene `app0`, seeded by `app0`'s frame seed,
    /// produces.
    pub open spec fn pixel_outputs_ok(
        app0: Application,
        cam: CameraFrame,
        q: int,
        c: Rgba,
        pos: Point3,
        nrm: Point3,
        trv: i64,
    ) -> bool {
        let r = render_pixel_spec(
            app0.voxel_grid,
            app0.solvent_radius as int,
            app0.max_neighbours as int,
            app0.max_steps as nat,
            cam,
            q % (app0.width as int),
            q / (app0.width as int),
            app0.width as int,
            app0.height as int,
            app0.frame_seed(q),
        );
        c == r.color && pos == r.position && nrm == r.normal && trv == r.travel
    }

    /// Render one frame: march every pixel, seeded by the distance cache
    /// (reset first if the camera changed), and refine the cache with each
    /// pixel's new travel distance. While the camera is static no cache
    /// entry ever decreases.
    #[verifier::rlimit(100)]
    pub fn render(&mut self, cam: &CameraFrame, time: i64) -> (out: FrameOutput)
        requires
            old(self).wf(),
            cam.wf(),
        ensures
            final(self).wf(),
            !final(self).camera_changed,
            *final(self) == (Application {
                camera_changed: false,
                distance_cache: final(self).distance_cache,
                ..*old(self)
            }),
            final(self).distance_cache.values@.len() == old(self).width * old(self).height,
            out.color@.len() == old(self).width * old(self).height,
            out.positions@.len() == out.color@.len(),
            out.normals@.len() == out.color@.len(),
            out.globals == (RaymarchGlobals {
                window_width: old(self).width,
                window_height: old(self).height,
                camera_origin: cam.eye,
                bb_min: old(self).voxel_grid.bb_min,
                bb_max: old(self).voxel_grid.bb_max,
                bb_diff: old(self).voxel_grid.bb_diff,
                bb_size: old(self).voxel_grid.bb_size,
                voxel_length: old(self).voxel_grid.voxel_length,
                time: time,
                solvent_radius: old(self).solvent_radius,
                max_neighbours: old(self).max_neighbours,
                max_steps: old(self).max_steps,
                save: old(self).save,
            }),
            forall|p: int|
                0 <= p < out.color@.len() ==> #[trigger] Application::pixel_outputs_ok(
                    *old(self),
                    *cam,
                    p,
                    out.color@[p],
                    out.positions@[p],
                    out.normals@[p],
                    final(self).distance_cache.values@[p],
                ),
            forall|p: int|
                0 <= p < out.color@.len() && !old(self).camera_changed
                    ==> old(self).distance_cache.values@[p]
                    <= #[trigger] final(self).distance_cache.values@[p],
    {
        let g = self.globals(cam.eye, time);
        if self.camera_changed {
            self.distance_cache.reset();
            self.camera_changed = false;
        }
        let w = self.width;
        let h = self.height;
        proof {
            lemma_window_area(w as int, h as int);
        }
        let n = (w as usize) * (h as usize);
        let mut color: Vec<Rgba> = Vec::new();
        let mut positions: Vec<Point3> = Vec::new();
        let mut normals: Vec<Point3> = Vec::new();
        let mut p: usize = 0;
        while p < n
            invariant
                old(self).wf(),
                cam.wf(),
                self.width == old(self).width,
                self.height == old(self).height,
                self.camera == old(self).camera,
                self.voxel_grid == old(self).voxel_grid,
                self.solvent_radius == old(self).solvent_radius,
                self.max_neighbours == old(self).max_neighbours,
                self.max_steps == old(self).max_steps,
                self.save == old(self).save,
                self.mouse_pressed == old(self).mouse_pressed,
                self.mouse_x == old(self).mouse_x,
                self.mouse_y == old(self).mouse_y,
                !self.camera_changed,
                w == old(self).width,
                h == old(self).height,
                n == w * h,
                p <= n,
                self.distance_cache.wf(),
                self.distance_cache.values@.len() == n,
                forall|q: int|
                    p <= q < n ==> #[trigger] self.distance_cache.values@[q] == old(
                        self,
                    ).frame_seed(q),
                forall|q: int|
                    0 <= q < p && old(self).frame_seed(q) != CACHE_SENTINEL ==> old(
                        self,
                    ).frame_seed(q) <= #[trigger] self.distance_cache.values@[q],
                forall|q: int|
                    0 <= q < p ==> #[trigger] Application::pixel_outputs_ok(
                        *old(self),
                        *cam,
                        q,
                        color@[q],
                        positions@[q],
                        normals@[q],
                        self.distance_cache.values@[q],
                    ),
                color@.len() == p,
                positions@.len() == p,
                normals@.len() == p,
            decreases n - p,
        {
            proof {
                vstd::arithmetic::div_mod::lemma_multiply_divide_lt(p as int, w as int, h as int);
                assert(w as int * h as int == n) by (nonlinear_arith)
                    requires
                        n == w * h,
                ;
            }
            let px = (p % (w as usize)) as u32;
            let py = (p / (w as usize)) as u32;
            let seed = self.distance_cache.get(p);
            let r = render_pixel(
                &self.voxel_grid,
                cam,
                self.solvent_radius,
                self.max_neighbours,
                self.max_steps,
                px,
                py,
                w,
                h,
                seed,
            );
            color.push(r.color);
            positions.push(r.position);
            normals.push(r.normal);
            self.distance_cache.set_entry(p, r.travel);
            proof {
                assert(seed == old(self).frame_seed(p as int));
                assert(Application::pixel_outputs_ok(
                    *old(self),
                    *cam,
                    p as int,
                    r.color,
                    r.position,
                    r.normal,
                    r.travel,
                ));
            }
            p += 1;
        }
        FrameOutput { color, positions, normals, globals: g }
    }
}

/// A window's pixel count fits comfortably in `usize`.
proof fn lemma_window_area(w: int, h: int)
    requires
        0 < w <= WINDOW_LIMIT,
        0 < h <= WINDOW_LIMIT,
    ensures
        0 < w * h <= 268_435_456,
{
    assert(0 < w * h <= 268_435_456) by (nonlinear_arith)
        requires
            0 < w <= 16384,
            0 < h <= 16384,
    ;
}

} // verus!
