//! Paddle movement under player input.
use vstd::prelude::*;

use crate::arena::{ARENA_HEIGHT, AXIS_RANGE};
use crate::bounce::is_live_paddle;
use crate::components::Side;
use crate::move_balls::same_but_transform;
use crate::world::{EntityRecord, Transform, World};

verus! {

/// The input axes that steer the paddles this frame, each in
/// `[-AXIS_RANGE, AXIS_RANGE]`; `None` where the axis is not bound.
#[derive(Debug, Clone, Copy, PartialEq, Eq, Structural)]
pub struct PaddleAxes {
    pub left: Option<i32>,
    pub right: Option<i32>,
}

pub open spec fn axis_in_range(a: Option<i32>) -> bool {
    match a {
        Some(v) => -AXIS_RANGE <= v <= AXIS_RANGE,
        None => true,
    }
}

impl PaddleAxes {
    pub open spec fn wf(self) -> bool {
        axis_in_range(self.left) && axis_in_range(self.right)
    }

    pub open spec fn spec_for(self, side: Side) -> Option<i32> {
        match side {
            Side::Left => self.left,
            Side::Right => self.right,
        }
    }
}

/// The vertical shift of a paddle of speed `velocity` over `dt` microseconds
/// at deflection `axis` (in thousandths), rounded towards zero.
pub open spec fn paddle_shift(axis: int, velocity: int, dt: int) -> int {
    if axis >= 0 {
        (axis * velocity * dt) / (AXIS_RANGE as int)
    } else {
        -(((-axis) * velocity * dt) / (AXIS_RANGE as int))
    }
}

/// `y` held so that a paddle of height `h` centred there stays inside the arena.
pub open spec fn clamp_paddle_y(y: int, h: int) -> int {
    let low = h / 2;
    let high = ARENA_HEIGHT - h / 2;
    let capped = if y < high {
        y
    } else {
        high
    };
    if capped > low {
        capped
    } else {
        low
    }
}

/// The position of entity record `r` after a frame of paddle movement.
pub open spec fn steered(r: EntityRecord, axes: PaddleAxes, dt: int) -> Option<Transform> {
    if is_live_paddle(r) {
        let p = r.paddle.unwrap();
        let t = r.transform.unwrap();
        match axes.spec_for(p.side) {
            Some(a) => Some(
                Transform {
                    x: t.x,
                    y: clamp_paddle_y(t.y + paddle_shift(a as int, p.velocity as int, dt), p.height as int)
                        as i64,
                },
            ),
            None => r.transform,
        }
    } else {
        r.transform
    }
}

fn shift(axis: i32, velocity: i64, dt: u32) -> (r: i128)
    requires
        -AXIS_RANGE <= axis <= AXIS_RANGE,
        velocity >= 0,
    ensures
        r == paddle_shift(axis as int, velocity as int, dt as int),
        -0x8000_0000_0000_0000_0000_0000 <= r <= 0x8000_0000_0000_0000_0000_0000,
{
    let a: i128 = if axis >= 0 {
        axis as i128
    } else {
        -(axis as i128)
    };
    let v = velocity as i128;
    let d = dt as i128;
    assert(0 <= a * v <= 1000 * 0x8000_0000_0000_0000) by (nonlinear_arith)
        requires
            0 <= a <= 1000,
            0 <= v < 0x8000_0000_0000_0000,
    ;
    assert(0 <= a * v * d <= 1000 * 0x8000_0000_0000_0000 * 0x1_0000_0000) by (nonlinear_arith)
        requires
            0 <= a <= 1000,
            0 <= v < 0x8000_0000_0000_0000,
            0 <= d < 0x1_0000_0000,
    ;
    let m = a * v * d / (AXIS_RANGE as i128);
    assert(m <= 0x8000_0000_0000_0000_0000_0000) by (nonlinear_arith)
        requires
            m == a * v * d / 1000,
            0 <= a * v * d <= 1000 * 0x8000_0000_0000_0000 * 0x1_0000_0000,
    ;
    if axis >= 0 {
        m
    } else {
        -m
    }
}

/// Moves each paddle along its side's input axis, keeping it inside the arena.
#[derive(Debug, Clone, Copy, Default)]
pub struct PaddleSystem;

impl PaddleSystem {
    /// Shifts every live paddle whose axis is bound by `axis * velocity * dt`,
    /// then clamps its centre so that the whole paddle stays within
    /// `[0, ARENA_HEIGHT]`.
    pub fn run(&self, world: &mut World, axes: PaddleAxes, dt: u32)
        requires
            old(world).wf(),
            axes.wf(),
        ensures
            final(world).wf(),
            final(world).texts@ == old(world).texts@,
            final(world).records@.len() == old(world).records@.len(),
            forall|i: int|
                0 <= i < old(world).records@.len() ==> same_but_transform(
                    #[trigger] final(world).records@[i],
                    old(world).records@[i],
                ) && final(world).records@[i].transform == steered(
                    old(world).records@[i],
                    axes,
                    dt as int,
                ),
    {
        let n = world.records.len();
        let mut i: usize = 0;
        while i < n
            invariant
                world.wf(),
                axes.wf(),
                n == world.records@.len(),
                n == old(world).records@.len(),
                i <= n,
                world.texts@ == old(world).texts@,
                forall|j: int|
                    0 <= j < i ==> same_but_transform(
                        #[trigger] world.records@[j],
                        old(world).records@[j],
                    ) && world.records@[j].transform == steered(
                        old(world).records@[j],
                        axes,
                        dt as int,
                    ),
                forall|j: int| i <= j < n ==> #[trigger] world.records@[j] == old(world).records@[j],
            decreases n - i,
        {
            let rec = world.records[i];
            if rec.alive && rec.paddle.is_some() && rec.transform.is_some() {
                let p = rec.paddle.unwrap();
                let t = rec.transform.unwrap();
                let axis = match p.side {
                    Side::Left => axes.left,
                    Side::Right => axes.right,
                };
                if let Some(a) = axis {
                    let half = (p.height / 2) as i128;
                    let high = ARENA_HEIGHT as i128 - half;
                    let y = t.y as i128 + shift(a, p.velocity, dt);
                    let capped = if y < high {
                        y
                    } else {
                        high
                    };
                    let clamped = if capped > half {
                        capped
                    } else {
                        half
                    };
                    let mut new_rec = rec;
                    new_rec.transform = Some(Transform { x: t.x, y: clamped as i64 });
                    world.records.set(i, new_rec);
                }
            }
            i = i + 1;
        }
    }
}

} // verus!
