//! Goals: a ball that reaches the left or right edge scores for the player on
//! the other side and is sent back from the middle.
use vstd::prelude::*;

use crate::arena::{ARENA_WIDTH, MAX_SCORE};
use crate::bounce::{flip_x, is_live_ball};
use crate::components::{cues, Ball, ScoreBoard, Side, SoundCue};
use crate::text::{decimal, decimal_string, fps_string, fps_text};
use crate::world::{Entity, EntityRecord, Transform, World};

verus! {

/// The entities whose text shows the two scores and the frame rate.
#[derive(Debug, Clone, Copy, PartialEq, Eq, Structural)]
pub struct ScoreText {
    pub p1_score: Entity,
    pub p2_score: Entity,
    pub fps_display: Entity,
}

/// The player who scores with this record, if it is a ball at an edge: the
/// right player at the left edge, the left player at the right edge.
pub open spec fn goal_side(r: EntityRecord) -> Option<Side> {
    if is_live_ball(r) {
        let b = r.ball.unwrap();
        let t = r.transform.unwrap();
        if t.x <= b.radius {
            Some(Side::Right)
        } else if t.x >= ARENA_WIDTH - b.radius {
            Some(Side::Left)
        } else {
            None
        }
    } else {
        None
    }
}

/// A ball that scored: its horizontal velocity reversed and its centre moved
/// back to the middle column, its height unchanged.
pub open spec fn after_goal(r: EntityRecord) -> EntityRecord {
    if goal_side(r) is Some {
        let b = r.ball.unwrap();
        let t = r.transform.unwrap();
        EntityRecord {
            alive: r.alive,
            parent: r.parent,
            ui_id: r.ui_id,
            transform: Some(Transform { x: (ARENA_WIDTH / 2) as i64, y: t.y }),
            ball: Some(flip_x(b)),
            paddle: r.paddle,
            camera: r.camera,
        }
    } else {
        r
    }
}

/// Goals for `side` among the first `k` entities.
pub open spec fn goals(records: Seq<EntityRecord>, side: Side, k: nat) -> nat
    decreases k,
{
    if k == 0 {
        0
    } else {
        goals(records, side, (k - 1) as nat) + if goal_side(records[k - 1]) == Some(side) {
            1nat
        } else {
            0nat
        }
    }
}

/// A score after `n` more points, held at `MAX_SCORE`.
pub open spec fn capped_add(score: int, n: nat) -> int {
    if score + n <= MAX_SCORE {
        score + n
    } else {
        MAX_SCORE as int
    }
}

/// A ball at or beyond the left edge scores for the right player, one at or
/// beyond the right edge for the left player; either way it comes back with
/// its horizontal velocity reversed, its centre in the middle column, and its
/// height and vertical velocity unchanged.
pub proof fn lemma_goal_resets_ball(r: EntityRecord)
    requires
        is_live_ball(r),
        r.ball.unwrap().wf(),
    ensures
        r.transform.unwrap().x <= r.ball.unwrap().radius ==> goal_side(r) == Some(Side::Right),
        r.ball.unwrap().radius < r.transform.unwrap().x && r.transform.unwrap().x >= ARENA_WIDTH
            - r.ball.unwrap().radius ==> goal_side(r) == Some(Side::Left),
        goal_side(r) is Some ==> {
            let b = after_goal(r).ball.unwrap();
            let t = after_goal(r).transform.unwrap();
            &&& b.velocity[0] == -r.ball.unwrap().velocity[0]
            &&& b.velocity[1] == r.ball.unwrap().velocity[1]
            &&& b.radius == r.ball.unwrap().radius
            &&& t.x == ARENA_WIDTH / 2
            &&& t.y == r.transform.unwrap().y
        },
{
}

/// Scores saturate: from any score in `[0, MAX_SCORE]`, any number of further
/// goals leaves it in that range, and a score at `MAX_SCORE` stays there.
/// Consecutive runs compose: `m` goals after `n` goals leave the score that
/// `n + m` goals at once would.
pub proof fn lemma_score_saturates(score: int, n: nat, m: nat)
    requires
        0 <= score <= MAX_SCORE,
    ensures
        capped_add(capped_add(score, n), m) == capped_add(score, n + m),
        score <= capped_add(score, n) <= MAX_SCORE,
        score == MAX_SCORE ==> capped_add(score, n) == MAX_SCORE,
        capped_add(score, n + 1) == crate::components::capped_increment(capped_add(score, n)),
{
}

/// Live balls among the first `k` entities whose centre is at most
/// `radius` from the right edge.
pub open spec fn at_right_edge(records: Seq<EntityRecord>, k: nat) -> nat
    decreases k,
{
    if k == 0 {
        0
    } else {
        let r = records[k - 1];
        at_right_edge(records, (k - 1) as nat) + if is_live_ball(r) && r.transform.unwrap().x
            >= ARENA_WIDTH - r.ball.unwrap().radius {
            1nat
        } else {
            0nat
        }
    }
}

/// Live balls among the first `k` entities whose centre is at most
/// `radius` from the left edge.
pub open spec fn at_left_edge(records: Seq<EntityRecord>, k: nat) -> nat
    decreases k,
{
    if k == 0 {
        0
    } else {
        let r = records[k - 1];
        at_left_edge(records, (k - 1) as nat) + if is_live_ball(r) && r.transform.unwrap().x
            <= r.ball.unwrap().radius {
            1nat
        } else {
            0nat
        }
    }
}

/// Goals count balls per edge: every ball at the left edge is a point for the
/// right player, and, where every ball is narrower than the arena, every ball
/// at the right edge is a point for the left player.
pub proof fn lemma_goals_per_edge(records: Seq<EntityRecord>, k: nat)
    requires
        k <= records.len(),
        forall|i: int|
            0 <= i < records.len() && is_live_ball(records[i]) ==> 2 * (#[trigger] records[i]).ball.unwrap().radius
                < ARENA_WIDTH,
    ensures
        goals(records, Side::Right, k) == at_left_edge(records, k),
        goals(records, Side::Left, k) == at_right_edge(records, k),
    decreases k,
{
    if k > 0 {
        lemma_goals_per_edge(records, (k - 1) as nat);
        let r = records[k - 1];
        if is_live_ball(r) {
            assert(2 * r.ball.unwrap().radius < ARENA_WIDTH);
        }
    }
}

/// The frame-rate display shows `centi_fps`, in hundredths of a frame per second.
pub fn show_fps(world: &mut World, score_text: ScoreText, centi_fps: u64)
    requires
        old(world).wf(),
    ensures
        final(world).wf(),
        final(world).records@ == old(world).records@,
        final(world).texts@.len() == old(world).texts@.len(),
        final(world).texts_view() == old(world).shown(
            old(world).texts_view(),
            score_text.fps_display,
            fps_text(centi_fps as nat),
        ),
{
    world.set_text(score_text.fps_display, fps_string(centi_fps));
}

/// Detects balls that reached the left or right edge, scores for the other
/// side, and resets those balls.
#[derive(Debug, Clone, Copy, Default)]
pub struct WinnerSystem;

impl WinnerSystem {
    /// Shows the frame rate; then, for each ball at an edge, gives a point to
    /// the player opposite that edge (held at `MAX_SCORE`), reverses the
    /// ball's horizontal velocity, moves it to the middle column and asks for
    /// the score sound. Each player's display then shows the new score if that
    /// player scored.
    pub fn run(
        &self,
        world: &mut World,
        board: &mut ScoreBoard,
        score_text: ScoreText,
        centi_fps: u64,
        sounds: &mut Vec<SoundCue>,
    )
        requires
            old(world).wf(),
            old(board).wf(),
        ensures
            final(world).wf(),
            final(board).wf(),
            final(world).records@.len() == old(world).records@.len(),
            final(world).texts@.len() == old(world).texts@.len(),
            forall|i: int|
                0 <= i < old(world).records@.len() ==> #[trigger] final(world).records@[i]
                    == after_goal(old(world).records@[i]),
            final(board).left() == capped_add(
                old(board).left(),
                goals(old(world).records@, Side::Left, old(world).records@.len()),
            ),
            final(board).right() == capped_add(
                old(board).right(),
                goals(old(world).records@, Side::Right, old(world).records@.len()),
            ),
            final(sounds)@ == old(sounds)@ + cues(
                SoundCue::Score,
                goals(old(world).records@, Side::Left, old(world).records@.len()) + goals(
                    old(world).records@,
                    Side::Right,
                    old(world).records@.len(),
                ),
            ),
            ({
                let w = old(world);
                let n = w.records@.len();
                let fps = w.shown(w.texts_view(), score_text.fps_display, fps_text(centi_fps as nat));
                let left = if goals(w.records@, Side::Left, n) > 0 {
                    w.shown(fps, score_text.p1_score, decimal(final(board).left() as nat))
                } else {
                    fps
                };
                final(world).texts_view() == if goals(w.records@, Side::Right, n) > 0 {
                    w.shown(left, score_text.p2_score, decimal(final(board).right() as nat))
                } else {
                    left
                }
            }),
    {
        show_fps(world, score_text, centi_fps);
        let ghost mid = *world;
        let n = world.records.len();
        let mut left_goal = false;
        let mut right_goal = false;
        let mut i: usize = 0;
        while i < n
            invariant
                world.wf(),
                board.wf(),
                n == world.records@.len(),
                n == old(world).records@.len(),
                mid.records@ == old(world).records@,
                i <= n,
                world.texts@ == mid.texts@,
                forall|j: int|
                    0 <= j < i ==> #[trigger] world.records@[j] == after_goal(old(world).records@[j]),
                forall|j: int| i <= j < n ==> #[trigger] world.records@[j] == old(world).records@[j],
                board.left() == capped_add(old(board).left(), goals(old(world).records@, Side::Left, i as nat)),
                board.right() == capped_add(old(board).right(), goals(old(world).records@, Side::Right, i as nat)),
                left_goal == (goals(old(world).records@, Side::Left, i as nat) > 0),
                right_goal == (goals(old(world).records@, Side::Right, i as nat) > 0),
                sounds@ == old(sounds)@ + cues(
                    SoundCue::Score,
                    goals(old(world).records@, Side::Left, i as nat) + goals(
                        old(world).records@,
                        Side::Right,
                        i as nat,
                    ),
                ),
            decreases n - i,
        {
            let rec = world.records[i];
            if rec.alive && rec.ball.is_some() && rec.transform.is_some() {
                let b = rec.ball.unwrap();
                let t = rec.transform.unwrap();
                let x = t.x as i128;
                let radius = b.radius as i128;
                let scorer = if x <= radius {
                    Some(Side::Right)
                } else if x >= ARENA_WIDTH as i128 - radius {
                    Some(Side::Left)
                } else {
                    None
                };
                if let Some(side) = scorer {
                    board.add_point(side);
                    match side {
                        Side::Left => left_goal = true,
                        Side::Right => right_goal = true,
                    }
                    let mut new_rec = rec;
                    new_rec.ball = Some(
                        Ball {
                            velocity: [-b.velocity[0], b.velocity[1]],
                            radius: b.radius,
                        },
                    );
                    new_rec.transform = Some(Transform { x: ARENA_WIDTH / 2, y: t.y });
                    world.records.set(i, new_rec);
                    sounds.push(SoundCue::Score);
                    assert(sounds@ =~= old(sounds)@ + cues(
                        SoundCue::Score,
                        goals(old(world).records@, Side::Left, (i + 1) as nat) + goals(
                            old(world).records@,
                            Side::Right,
                            (i + 1) as nat,
                        ),
                    ));
                }
            }
            i = i + 1;
        }
        if left_goal {
            world.set_text(score_text.p1_score, decimal_string(board.score_left() as u64));
        }
        if right_goal {
            world.set_text(score_text.p2_score, decimal_string(board.score_right() as u64));
        }
    }
}

} // verus!
