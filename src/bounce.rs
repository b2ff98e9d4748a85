//! Reflection of balls off the top and bottom walls and off the paddles.
use vstd::prelude::*;

use crate::arena::{in_rect, point_in_rect, ARENA_HEIGHT};
use crate::components::{cues, Ball, Paddle, Side, SoundCue};
use crate::bundle::bounce_all;
use crate::world::{EntityRecord, Transform, World};

verus! {

/// An entity that the movement and collision systems act on as a ball.
pub open spec fn is_live_ball(r: EntityRecord) -> bool {
    r.alive && r.ball is Some && r.transform is Some
}

/// An entity that balls bounce off as a paddle.
pub open spec fn is_live_paddle(r: EntityRecord) -> bool {
    r.alive && r.paddle is Some && r.transform is Some
}

/// Two records that differ at most in their ball component.
pub open spec fn same_but_ball(a: EntityRecord, b: EntityRecord) -> bool {
    &&& a.alive == b.alive
    &&& a.parent == b.parent
    &&& a.ui_id == b.ui_id
    &&& a.transform == b.transform
    &&& a.paddle == b.paddle
    &&& a.camera == b.camera
}

pub open spec fn flip_x(b: Ball) -> Ball {
    Ball { velocity: [(-b.velocity[0]) as i64, b.velocity[1]], radius: b.radius }
}

pub open spec fn flip_y(b: Ball) -> Ball {
    Ball { velocity: [b.velocity[0], (-b.velocity[1]) as i64], radius: b.radius }
}

/// The ball touches the bottom wall while moving down, or the top wall while
/// moving up.
pub open spec fn wall_hit(b: Ball, t: Transform) -> bool {
    (t.y <= b.radius && b.velocity[1] < 0) || (t.y >= ARENA_HEIGHT - b.radius && b.velocity[1]
        > 0)
}

/// The ball's centre lies in the paddle's box grown by the radius on every
/// side. Coordinates are doubled so that half a paddle's extent stays exact.
pub open spec fn in_hitbox(b: Ball, t: Transform, p: Paddle, pt: Transform) -> bool {
    in_rect(
        2 * t.x,
        2 * t.y,
        2 * pt.x - p.width - 2 * b.radius,
        2 * pt.y - p.height - 2 * b.radius,
        2 * pt.x + p.width + 2 * b.radius,
        2 * pt.y + p.height + 2 * b.radius,
    )
}

/// The ball moves towards `side`.
pub open spec fn toward(side: Side, b: Ball) -> bool {
    (side == Side::Left && b.velocity[0] < 0) || (side == Side::Right && b.velocity[0] > 0)
}

/// The ball is in the paddle's grown box and moves towards the paddle's side.
pub open spec fn paddle_hit(b: Ball, t: Transform, p: Paddle, pt: Transform) -> bool {
    in_hitbox(b, t, p, pt) && toward(p.side, b)
}

/// The ball after meeting the first `k` entities as paddles, in order, and the
/// number of reflections on the way.
pub open spec fn bounce_paddles(records: Seq<EntityRecord>, b: Ball, t: Transform, k: nat) -> (
    Ball,
    nat,
)
    decreases k,
{
    if k == 0 {
        (b, 0)
    } else {
        let prev = bounce_paddles(records, b, t, (k - 1) as nat);
        let r = records[k - 1];
        if is_live_paddle(r) && paddle_hit(prev.0, t, r.paddle.unwrap(), r.transform.unwrap()) {
            (flip_x(prev.0), prev.1 + 1)
        } else {
            prev
        }
    }
}

/// The ball after the walls and then every paddle, and the number of reflections.
pub open spec fn bounce_ball(records: Seq<EntityRecord>, b: Ball, t: Transform) -> (Ball, nat) {
    let walls: (Ball, nat) = if wall_hit(b, t) {
        (flip_y(b), 1)
    } else {
        (b, 0)
    };
    let after = bounce_paddles(records, walls.0, t, records.len());
    (after.0, walls.1 + after.1)
}

/// The ball component of entity `i` after a collision pass.
pub open spec fn bounced(records: Seq<EntityRecord>, i: int) -> Option<Ball> {
    let r = records[i];
    if is_live_ball(r) {
        Some(bounce_ball(records, r.ball.unwrap(), r.transform.unwrap()).0)
    } else {
        r.ball
    }
}

/// Reflections of the first `k` entities in a collision pass.
pub open spec fn bounce_total(records: Seq<EntityRecord>, k: nat) -> nat
    decreases k,
{
    if k == 0 {
        0
    } else {
        let r = records[k - 1];
        bounce_total(records, (k - 1) as nat) + if is_live_ball(r) {
            bounce_ball(records, r.ball.unwrap(), r.transform.unwrap()).1
        } else {
            0
        }
    }
}

/// Paddle reflection is one-way: a ball that moves away from a paddle's side,
/// or stands still, is never reflected by it, however deep it overlaps the
/// paddle; and a ball just reflected by a paddle is not reflected by it again
/// from the same position.
pub proof fn lemma_paddle_reflection_one_way(b: Ball, t: Transform, p: Paddle, pt: Transform)
    requires
        b.wf(),
    ensures
        p.side == Side::Left && b.velocity[0] >= 0 ==> !paddle_hit(b, t, p, pt),
        p.side == Side::Right && b.velocity[0] <= 0 ==> !paddle_hit(b, t, p, pt),
        paddle_hit(b, t, p, pt) ==> !paddle_hit(flip_x(b), t, p, pt),
{
}

/// Every live paddle whose grown box holds the ball's centre is on `side`.
pub open spec fn one_sided(records: Seq<EntityRecord>, b: Ball, t: Transform, side: Side) -> bool {
    forall|j: int|
        0 <= j < records.len() && is_live_paddle(records[j]) && #[trigger] in_hitbox(
            b,
            t,
            records[j].paddle.unwrap(),
            records[j].transform.unwrap(),
        ) ==> records[j].paddle.unwrap().side == side
}

proof fn lemma_no_paddle_hits(records: Seq<EntityRecord>, c: Ball, t: Transform, k: nat)
    requires
        k <= records.len(),
        forall|j: int|
            0 <= j < k ==> !(is_live_paddle(records[j]) && #[trigger] paddle_hit(
                c,
                t,
                records[j].paddle.unwrap(),
                records[j].transform.unwrap(),
            )),
    ensures
        bounce_paddles(records, c, t, k) == (c, 0nat),
    decreases k,
{
    if k > 0 {
        lemma_no_paddle_hits(records, c, t, (k - 1) as nat);
    }
}

/// Along the paddles, a ball whose grown boxes are all on one side is
/// reflected at most once, and then moves away from that side.
proof fn lemma_first_pass(records: Seq<EntityRecord>, b: Ball, t: Transform, side: Side, k: nat)
    requires
        b.wf(),
        k <= records.len(),
        one_sided(records, b, t, side),
    ensures
        ({
            let c = bounce_paddles(records, b, t, k).0;
            ||| c == b && forall|j: int|
                0 <= j < k ==> !(is_live_paddle(records[j]) && #[trigger] paddle_hit(
                    b,
                    t,
                    records[j].paddle.unwrap(),
                    records[j].transform.unwrap(),
                ))
            ||| c == flip_x(b) && toward(side, b)
        }),
    decreases k,
{
    if k > 0 {
        lemma_first_pass(records, b, t, side, (k - 1) as nat);
        let r = records[k - 1];
        if is_live_paddle(r) && in_hitbox(b, t, r.paddle.unwrap(), r.transform.unwrap()) {
            assert(in_hitbox(flip_x(b), t, r.paddle.unwrap(), r.transform.unwrap()));
        }
    }
}

/// A collision pass is idempotent for a ball whose grown paddle boxes all lie
/// on one side and which cannot touch both walls at once: a second pass over
/// the same positions reflects it no more.
pub proof fn lemma_second_pass_is_still(records: Seq<EntityRecord>, b: Ball, t: Transform, side: Side)
    requires
        b.wf(),
        2 * b.radius < ARENA_HEIGHT,
        one_sided(records, b, t, side),
    ensures
        bounce_ball(records, bounce_ball(records, b, t).0, t) == (bounce_ball(records, b, t).0, 0nat),
{
    let b0 = if wall_hit(b, t) {
        flip_y(b)
    } else {
        b
    };
    assert(!wall_hit(b0, t));
    assert forall|j: int|
        0 <= j < records.len() && is_live_paddle(records[j]) && #[trigger] in_hitbox(
            b0,
            t,
            records[j].paddle.unwrap(),
            records[j].transform.unwrap(),
        ) implies records[j].paddle.unwrap().side == side by {
        assert(in_hitbox(b, t, records[j].paddle.unwrap(), records[j].transform.unwrap()));
    }
    let n = records.len();
    lemma_first_pass(records, b0, t, side, n);
    let b1 = bounce_paddles(records, b0, t, n).0;
    assert(!wall_hit(b1, t));
    if b1 == b0 {
        lemma_no_paddle_hits(records, b1, t, n);
    } else {
        assert forall|j: int|
            0 <= j < n implies !(is_live_paddle(records[j]) && #[trigger] paddle_hit(
                b1,
                t,
                records[j].paddle.unwrap(),
                records[j].transform.unwrap(),
            )) by {
            if is_live_paddle(records[j]) && in_hitbox(b1, t, records[j].paddle.unwrap(), records[j].transform.unwrap()) {
                assert(in_hitbox(b0, t, records[j].paddle.unwrap(), records[j].transform.unwrap()));
            }
        }
        lemma_no_paddle_hits(records, b1, t, n);
    }
}

proof fn lemma_paddles_ignore_balls(
    r1: Seq<EntityRecord>,
    r2: Seq<EntityRecord>,
    b: Ball,
    t: Transform,
    k: nat,
)
    requires
        r1.len() == r2.len(),
        k <= r1.len(),
        forall|j: int| 0 <= j < r1.len() ==> same_but_ball(#[trigger] r1[j], r2[j]),
    ensures
        bounce_paddles(r1, b, t, k) == bounce_paddles(r2, b, t, k),
    decreases k,
{
    if k > 0 {
        lemma_paddles_ignore_balls(r1, r2, b, t, (k - 1) as nat);
        assert(same_but_ball(r1[k - 1], r2[k - 1]));
    }
}

/// A ball fit for a second pass: valid, narrower than the arena's height, and
/// in grown paddle boxes of one side only.
pub open spec fn settles(records: Seq<EntityRecord>, r: EntityRecord) -> bool {
    let b = r.ball.unwrap();
    let t = r.transform.unwrap();
    &&& b.wf()
    &&& 2 * b.radius < ARENA_HEIGHT
    &&& (one_sided(records, b, t, Side::Left) || one_sided(records, b, t, Side::Right))
}

/// Reflection is one-way over a whole collision pass: once every ball has
/// bounced, a second pass over the same positions, with no movement between,
/// reflects no ball and asks for no sound.
pub proof fn lemma_collision_pass_idempotent(records: Seq<EntityRecord>)
    requires
        forall|i: int|
            0 <= i < records.len() && is_live_ball(records[i]) ==> settles(records, #[trigger] records[i]),
    ensures
        forall|i: int|
            0 <= i < records.len() ==> #[trigger] bounced(bounce_all(records), i) == bounce_all(records)[i].ball,
        bounce_total(bounce_all(records), records.len()) == 0,
{
    let r1 = bounce_all(records);
    assert forall|j: int| 0 <= j < r1.len() implies same_but_ball(#[trigger] r1[j], records[j]) by {}
    assert forall|i: int| 0 <= i < records.len() implies #[trigger] bounced(r1, i) == r1[i].ball
        && (is_live_ball(r1[i]) ==> bounce_ball(r1, r1[i].ball.unwrap(), r1[i].transform.unwrap()).1 == 0) by {
        if is_live_ball(records[i]) {
            let b = records[i].ball.unwrap();
            let t = records[i].transform.unwrap();
            let side = if one_sided(records, b, t, Side::Left) {
                Side::Left
            } else {
                Side::Right
            };
            lemma_second_pass_is_still(records, b, t, side);
            let b1 = bounce_ball(records, b, t).0;
            let w1 = if wall_hit(b1, t) {
                flip_y(b1)
            } else {
                b1
            };
            lemma_paddles_ignore_balls(r1, records, w1, t, records.len());
        }
    }
    assert forall|i: int| 0 <= i < r1.len() && is_live_ball(r1[i]) implies #[trigger] bounce_ball(
        r1,
        r1[i].ball.unwrap(),
        r1[i].transform.unwrap(),
    ).1 == 0 by {
        assert(bounced(r1, i) == r1[i].ball);
    }
    lemma_total_zero(r1, records.len());
}

proof fn lemma_total_zero(r1: Seq<EntityRecord>, k: nat)
    requires
        k <= r1.len(),
        forall|i: int|
            0 <= i < r1.len() && is_live_ball(r1[i]) ==> #[trigger] bounce_ball(
                r1,
                r1[i].ball.unwrap(),
                r1[i].transform.unwrap(),
            ).1 == 0,
    ensures
        bounce_total(r1, k) == 0,
    decreases k,
{
    if k > 0 {
        lemma_total_zero(r1, (k - 1) as nat);
    }
}

fn hits_wall(b: Ball, t: Transform) -> (r: bool)
    ensures
        r == wall_hit(b, t),
{
    let radius = b.radius as i128;
    let y = t.y as i128;
    (y <= radius && b.velocity[1] < 0) || (y >= ARENA_HEIGHT as i128 - radius && b.velocity[1]
        > 0)
}

fn hits_paddle(b: Ball, t: Transform, p: Paddle, pt: Transform) -> (r: bool)
    ensures
        r == paddle_hit(b, t, p, pt),
{
    let r2 = 2 * (b.radius as i128);
    let px = 2 * (pt.x as i128);
    let py = 2 * (pt.y as i128);
    let w = p.width as i128;
    let h = p.height as i128;
    point_in_rect(
        2 * (t.x as i128),
        2 * (t.y as i128),
        px - w - r2,
        py - h - r2,
        px + w + r2,
        py + h + r2,
    ) && ((p.side == Side::Left && b.velocity[0] < 0) || (p.side == Side::Right && b.velocity[0]
        > 0))
}

/// Detects collisions of balls with the arena's top and bottom edges and with
/// the paddles, and bounces them off.
#[derive(Debug, Clone, Copy, Default)]
pub struct BounceSystem;

impl BounceSystem {
    /// Reflects each ball's vertical velocity at a wall it moves into, then its
    /// horizontal velocity at each paddle it touches while moving towards that
    /// paddle's side, and asks for the bounce sound once per reflection.
    pub fn run(&self, world: &mut World, sounds: &mut Vec<SoundCue>)
        requires
            old(world).wf(),
        ensures
            final(world).wf(),
            final(world).texts@ == old(world).texts@,
            final(world).records@.len() == old(world).records@.len(),
            forall|i: int|
                0 <= i < old(world).records@.len() ==> same_but_ball(
                    #[trigger] final(world).records@[i],
                    old(world).records@[i],
                ) && final(world).records@[i].ball == bounced(old(world).records@, i),
            final(sounds)@ == old(sounds)@ + cues(
                SoundCue::Bounce,
                bounce_total(old(world).records@, old(world).records@.len()),
            ),
    {
        let n = world.records.len();
        let mut i: usize = 0;
        while i < n
            invariant
                world.wf(),
                n == world.records@.len(),
                n == old(world).records@.len(),
                i <= n,
                world.texts@ == old(world).texts@,
                forall|j: int|
                    0 <= j < n ==> same_but_ball(
                        #[trigger] world.records@[j],
                        old(world).records@[j],
                    ),
                forall|j: int|
                    0 <= j < i ==> #[trigger] world.records@[j].ball == bounced(
                        old(world).records@,
                        j,
                    ),
                forall|j: int| i <= j < n ==> #[trigger] world.records@[j] == old(world).records@[j],
                sounds@ == old(sounds)@ + cues(
                    SoundCue::Bounce,
                    bounce_total(old(world).records@, i as nat),
                ),
            decreases n - i,
        {
            let rec = world.records[i];
            if rec.alive && rec.ball.is_some() && rec.transform.is_some() {
                let b0 = rec.ball.unwrap();
                let t = rec.transform.unwrap();
                let ghost before = sounds@;
                let mut b = b0;
                let mut count: u128 = 0;
                if hits_wall(b0, t) {
                    b = Ball { velocity: [b0.velocity[0], -b0.velocity[1]], radius: b0.radius };
                    sounds.push(SoundCue::Bounce);
                    count = 1;
                }
                let ghost walls = b;
                let ghost walls_count = count as nat;
                let mut j: usize = 0;
                while j < n
                    invariant
                        world.wf(),
                        n == world.records@.len(),
                        n == old(world).records@.len(),
                        j <= n,
                        i < n,
                        count <= 1 + j,
                        walls.wf(),
                        forall|k: int|
                            0 <= k < n ==> same_but_ball(
                                #[trigger] world.records@[k],
                                old(world).records@[k],
                            ),
                        b == bounce_paddles(old(world).records@, walls, t, j as nat).0,
                        count == walls_count + bounce_paddles(old(world).records@, walls, t, j as nat).1,
                        b.wf(),
                        b.radius == walls.radius,
                        sounds@ == before + cues(SoundCue::Bounce, count as nat),
                    decreases n - j,
                {
                    let pr = world.records[j];
                    if pr.alive && pr.paddle.is_some() && pr.transform.is_some() {
                        if hits_paddle(b, t, pr.paddle.unwrap(), pr.transform.unwrap()) {
                            b = Ball { velocity: [-b.velocity[0], b.velocity[1]], radius: b.radius };
                            sounds.push(SoundCue::Bounce);
                            count = count + 1;
                            assert(sounds@ =~= before + cues(SoundCue::Bounce, count as nat));
                        }
                    }
                    j = j + 1;
                }
                let mut new_rec = rec;
                new_rec.ball = Some(b);
                world.records.set(i, new_rec);
                proof {
                    assert(sounds@ =~= old(sounds)@ + cues(
                        SoundCue::Bounce,
                        bounce_total(old(world).records@, (i + 1) as nat),
                    ));
                }
            } else {
                proof {
                    assert(bounce_total(old(world).records@, (i + 1) as nat) == bounce_total(
                        old(world).records@,
                        i as nat,
                    ));
                }
            }
            i = i + 1;
        }
    }
}

} // verus!
