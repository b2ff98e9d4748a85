//! Ball movement: every ball advances by its velocity times the frame time.
use vstd::prelude::*;

use crate::bounce::is_live_ball;
use crate::world::{EntityRecord, Transform, World};

verus! {

/// `v` held to the range of `i64`.
pub open spec fn saturate(v: int) -> i64 {
    if v > i64::MAX {
        i64::MAX
    } else if v < i64::MIN {
        i64::MIN
    } else {
        v as i64
    }
}

/// Two records that differ at most in their position.
pub open spec fn same_but_transform(a: EntityRecord, b: EntityRecord) -> bool {
    &&& a.alive == b.alive
    &&& a.parent == b.parent
    &&& a.ui_id == b.ui_id
    &&& a.ball == b.ball
    &&& a.paddle == b.paddle
    &&& a.camera == b.camera
}

/// The position of entity record `r` after `dt` microseconds of ball movement;
/// a position beyond the range of `i64` stops at its end.
pub open spec fn moved(r: EntityRecord, dt: int) -> Option<Transform> {
    if is_live_ball(r) {
        let b = r.ball.unwrap();
        let t = r.transform.unwrap();
        Some(
            Transform {
                x: saturate(t.x + b.velocity[0] * dt),
                y: saturate(t.y + b.velocity[1] * dt),
            },
        )
    } else {
        r.transform
    }
}

fn advance(pos: i64, velocity: i64, dt: u32) -> (r: i64)
    ensures
        r == saturate(pos + velocity * dt),
{
    let v = velocity as i128;
    let d = dt as i128;
    assert(-0x8000_0000_0000_0000 * 0x1_0000_0000 <= v * d <= 0x8000_0000_0000_0000
        * 0x1_0000_0000) by (nonlinear_arith)
        requires
            -0x8000_0000_0000_0000 <= v < 0x8000_0000_0000_0000,
            0 <= d < 0x1_0000_0000,
    ;
    let next = pos as i128 + v * d;
    if next > i64::MAX as i128 {
        i64::MAX
    } else if next < i64::MIN as i128 {
        i64::MIN
    } else {
        next as i64
    }
}

/// Moves every ball by its velocity; it knows nothing of collisions.
#[derive(Debug, Clone, Copy, Default)]
pub struct MoveBallsSystem;

impl MoveBallsSystem {
    /// Adds `velocity * dt` to the position of every live ball, per axis, for a
    /// frame of `dt` microseconds.
    pub fn run(&self, world: &mut World, dt: u32)
        requires
            old(world).wf(),
        ensures
            final(world).wf(),
            final(world).texts@ == old(world).texts@,
            final(world).records@.len() == old(world).records@.len(),
            forall|i: int|
                0 <= i < old(world).records@.len() ==> same_but_transform(
                    #[trigger] final(world).records@[i],
                    old(world).records@[i],
                ) && final(world).records@[i].transform == moved(old(world).records@[i], dt as int),
    {
        let n = world.records.len();
        let mut i: usize = 0;
        while i < n
            invariant
                world.wf(),
                n == world.records@.len(),
                n == old(world).records@.len(),
                i <= n,
                world.texts@ == old(world).texts@,
                forall|j: int|
                    0 <= j < i ==> same_but_transform(
                        #[trigger] world.records@[j],
                        old(world).records@[j],
                    ) && world.records@[j].transform == moved(old(world).records@[j], dt as int),
                forall|j: int| i <= j < n ==> #[trigger] world.records@[j] == old(world).records@[j],
            decreases n - i,
        {
            let rec = world.records[i];
            if rec.alive && rec.ball.is_some() && rec.transform.is_some() {
                let b = rec.ball.unwrap();
                let t = rec.transform.unwrap();
                let mut new_rec = rec;
                new_rec.transform = Some(
                    Transform {
                        x: advance(t.x, b.velocity[0], dt),
                        y: advance(t.y, b.velocity[1], dt),
                    },
                );
                world.records.set(i, new_rec);
            }
            i = i + 1;
        }
    }
}

} // verus!
