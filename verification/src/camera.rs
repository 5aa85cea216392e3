//! Orbit camera state.
//!
//! The camera always looks at the origin from yaw, pitch and distance.
//! Yaw and pitch are in millidegrees, distance in ticks, and the speed
//! factor in thousandths. The eye position is always derived from these
//! scalars (`distance` times the spherical direction vector, which the
//! embedding computes with its trigonometry) and is never stored, so the
//! two representations cannot drift apart.

use vstd::prelude::*;
use crate::geom::{Point3, SCALE, div_trunc_spec, div_trunc};

verus! {

/// Largest yaw or pitch magnitude, in millidegrees.
pub const ANGLE_LIMIT: i64 = 1_000_000_000_000_000;

/// Largest camera distance magnitude, in ticks.
pub const DISTANCE_LIMIT: i64 = 100_000_000;

/// Largest speed factor magnitude, in thousandths.
pub const SPEED_LIMIT: i64 = 1_000_000;

/// `v` clamped into `[-limit, limit]`.
pub open spec fn clamped(v: int, limit: int) -> int {
    if v < -limit {
        -limit
    } else if v > limit {
        limit
    } else {
        v
    }
}

/// Rotation camera that always looks at the centre of the scene and
/// orbits around it.
pub struct RotationCamera {
    pub yaw: i64,
    pub pitch: i64,
    pub distance: i64,
    pub speed: i64,
    pub mouse_pressed: bool,
}

impl RotationCamera {
    /// All scalars within their fixed-point ranges.
    pub open spec fn wf(self) -> bool {
        &&& -ANGLE_LIMIT <= self.yaw <= ANGLE_LIMIT
        &&& -ANGLE_LIMIT <= self.pitch <= ANGLE_LIMIT
        &&& -DISTANCE_LIMIT <= self.distance <= DISTANCE_LIMIT
        &&& -SPEED_LIMIT <= self.speed <= SPEED_LIMIT
    }

    /// A camera at some distance from the centre, looking along the
    /// negative yaw axis.
    pub fn new(distance: i64) -> (c: RotationCamera)
        ensures
            c.wf(),
            c.yaw == -90_000,
            c.pitch == 0,
            c.distance == clamped(distance as int, DISTANCE_LIMIT as int),
            c.speed == 1000,
            !c.mouse_pressed,
    {
        RotationCamera {
            yaw: -90_000,
            pitch: 0,
            distance: clamp_i64(distance, DISTANCE_LIMIT),
            speed: 1000,
            mouse_pressed: false,
        }
    }

    /// Accumulate mouse deltas into yaw and pitch, unclamped within the
    /// fixed-point angle range (no gimbal guard, matching the orbit
    /// behaviour this models).
    pub fn rotate(&mut self, delta_yaw: i64, delta_pitch: i64)
        ensures
            final(self).yaw == clamped(
                old(self).yaw + delta_yaw,
                ANGLE_LIMIT as int,
            ),
            final(self).pitch == clamped(
                old(self).pitch + delta_pitch,
                ANGLE_LIMIT as int,
            ),
            final(self).distance == old(self).distance,
            final(self).speed == old(self).speed,
            final(self).mouse_pressed == old(self).mouse_pressed,
            old(self).wf() ==> final(self).wf(),
    {
        self.yaw = clamp_add(self.yaw, delta_yaw, ANGLE_LIMIT);
        self.pitch = clamp_add(self.pitch, delta_pitch, ANGLE_LIMIT);
    }

    /// Move toward or away from the centre by `delta` scroll steps scaled
    /// by the speed factor. No lower bound: the distance may reach zero or
    /// go negative, as the orbit behaviour this models allows.
    pub fn zoom(&mut self, delta: i64)
        ensures
            final(self).distance == clamped(
                old(self).distance - div_trunc_spec(delta * old(self).speed, 1000),
                DISTANCE_LIMIT as int,
            ),
            final(self).yaw == old(self).yaw,
            final(self).pitch == old(self).pitch,
            final(self).speed == old(self).speed,
            final(self).mouse_pressed == old(self).mouse_pressed,
            old(self).wf() ==> final(self).wf(),
    {
        proof {
            assert(-0x40000000000000000000000000000000i128 <= (delta as i128) * (self.speed
                as i128) <= 0x40000000000000000000000000000000i128) by (nonlinear_arith)
                requires
                    -0x8000000000000000i128 <= delta as i128 <= 0x7fffffffffffffffi128,
                    -0x8000000000000000i128 <= self.speed as i128 <= 0x7fffffffffffffffi128,
            ;
        }
        let prod: i128 = (delta as i128) * (self.speed as i128);
        let step: i128 = if prod >= 0 {
            prod / 1000
        } else {
            -((-prod) / 1000)
        };
        let moved: i128 = (self.distance as i128) - step;
        let lim: i128 = DISTANCE_LIMIT as i128;
        self.distance = if moved < -lim {
            -DISTANCE_LIMIT
        } else if moved > lim {
            DISTANCE_LIMIT
        } else {
            moved as i64
        };
    }

    /// The eye position: the distance along the given unit direction (in
    /// ticks, as the embedding's trigonometry computes it from yaw and
    /// pitch). Always derived, never stored.
    pub fn eye(&self, direction: Point3) -> (r: Point3)
        requires
            self.wf(),
            direction.in_bounds(SCALE as int),
        ensures
            r == (Point3 {
                x: div_trunc_spec(direction.x * self.distance, SCALE as int) as i64,
                y: div_trunc_spec(direction.y * self.distance, SCALE as int) as i64,
                z: div_trunc_spec(direction.z * self.distance, SCALE as int) as i64,
            }),
            r.in_bounds(DISTANCE_LIMIT as int),
    {
        proof {
            assert(-100_000_000_000i64 <= direction.x * self.distance <= 100_000_000_000i64
                && -100_000_000_000i64 <= direction.y * self.distance <= 100_000_000_000i64
                && -100_000_000_000i64 <= direction.z * self.distance <= 100_000_000_000i64)
                by (nonlinear_arith)
                requires
                    -1000 <= direction.x <= 1000,
                    -1000 <= direction.y <= 1000,
                    -1000 <= direction.z <= 1000,
                    -DISTANCE_LIMIT <= self.distance <= DISTANCE_LIMIT,
            ;
        }
        Point3 {
            x: div_trunc(direction.x * self.distance, SCALE),
            y: div_trunc(direction.y * self.distance, SCALE),
            z: div_trunc(direction.z * self.distance, SCALE),
        }
    }

    /// Set the speed factor that scales zoom input.
    pub fn set_speed(&mut self, speed: i64)
        ensures
            final(self).speed == clamped(speed as int, SPEED_LIMIT as int),
            final(self).yaw == old(self).yaw,
            final(self).pitch == old(self).pitch,
            final(self).distance == old(self).distance,
            final(self).mouse_pressed == old(self).mouse_pressed,
            old(self).wf() ==> final(self).wf(),
    {
        self.speed = clamp_i64(speed, SPEED_LIMIT);
    }
}

/// Clamp a value into `[-limit, limit]`.
fn clamp_i64(v: i64, limit: i64) -> (r: i64)
    requires
        0 < limit,
    ensures
        r == clamped(v as int, limit as int),
{
    if v < -limit {
        -limit
    } else if v > limit {
        limit
    } else {
        v
    }
}

/// Clamped addition over the full `i64` range.
fn clamp_add(a: i64, b: i64, limit: i64) -> (r: i64)
    requires
        0 < limit,
    ensures
        r == clamped(a as int + b as int, limit as int),
{
    let s: i128 = (a as i128) + (b as i128);
    if s < -(limit as i128) {
        -limit
    } else if s > limit as i128 {
        limit
    } else {
        s as i64
    }
}

} // verus!
