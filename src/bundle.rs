//! The gameplay dispatcher: the four systems of a frame, in dependency order,
//! each of them paused unless the game is running.
use vstd::prelude::*;

use crate::bounce::{bounce_total, bounced, BounceSystem};
use crate::components::{cues, ScoreBoard, Side, SoundCue};
use crate::move_balls::{moved, MoveBallsSystem};
use crate::paddle::{steered, PaddleAxes, PaddleSystem};
use crate::states::GameplayState;
use crate::text::{decimal, fps_text};
use crate::winner::{after_goal, capped_add, goals, show_fps, ScoreText, WinnerSystem};
use crate::world::{EntityRecord, Transform, World};
use crate::components::Ball;

verus! {

/// What the outside world hands a frame: its length in microseconds, the
/// paddle axes and the measured frame rate in hundredths of a frame per second.
#[derive(Debug, Clone, Copy, PartialEq, Eq, Structural)]
pub struct FrameInput {
    pub delta: u32,
    pub axes: PaddleAxes,
    pub centi_fps: u64,
}

pub open spec fn with_transform(r: EntityRecord, t: Option<Transform>) -> EntityRecord {
    EntityRecord {
        alive: r.alive,
        parent: r.parent,
        ui_id: r.ui_id,
        transform: t,
        ball: r.ball,
        paddle: r.paddle,
        camera: r.camera,
    }
}

pub open spec fn with_ball(r: EntityRecord, b: Option<Ball>) -> EntityRecord {
    EntityRecord {
        alive: r.alive,
        parent: r.parent,
        ui_id: r.ui_id,
        transform: r.transform,
        ball: b,
        paddle: r.paddle,
        camera: r.camera,
    }
}

/// The entities after the paddles moved.
pub open spec fn steer_all(rs: Seq<EntityRecord>, axes: PaddleAxes, dt: int) -> Seq<EntityRecord> {
    Seq::new(rs.len(), |i: int| with_transform(rs[i], steered(rs[i], axes, dt)))
}

/// The entities after the balls moved.
pub open spec fn move_all(rs: Seq<EntityRecord>, dt: int) -> Seq<EntityRecord> {
    Seq::new(rs.len(), |i: int| with_transform(rs[i], moved(rs[i], dt)))
}

/// The entities after the collision pass.
pub open spec fn bounce_all(rs: Seq<EntityRecord>) -> Seq<EntityRecord> {
    Seq::new(rs.len(), |i: int| with_ball(rs[i], bounced(rs, i)))
}

/// The entities after the goal pass.
pub open spec fn score_all(rs: Seq<EntityRecord>) -> Seq<EntityRecord> {
    rs.map_values(|r: EntityRecord| after_goal(r))
}

/// The entities once the moved balls met the walls and paddles.
pub open spec fn bounced_records(rs: Seq<EntityRecord>, frame: FrameInput) -> Seq<EntityRecord> {
    let dt = frame.delta as int;
    bounce_all(move_all(steer_all(rs, frame.axes, dt), dt))
}

/// The entities after a frame of gameplay.
pub open spec fn frame_records(rs: Seq<EntityRecord>, g: GameplayState, frame: FrameInput) -> Seq<
    EntityRecord,
> {
    if g == GameplayState::Running {
        score_all(bounced_records(rs, frame))
    } else {
        rs
    }
}

/// Goals for `side` in a frame of gameplay.
pub open spec fn frame_goals(rs: Seq<EntityRecord>, g: GameplayState, frame: FrameInput, side: Side) -> nat {
    if g == GameplayState::Running {
        goals(bounced_records(rs, frame), side, rs.len())
    } else {
        0
    }
}

/// The sounds a frame of gameplay asks for: one bounce per reflection, then one
/// score sound per goal.
pub open spec fn frame_sounds(rs: Seq<EntityRecord>, g: GameplayState, frame: FrameInput) -> Seq<SoundCue> {
    if g == GameplayState::Running {
        let dt = frame.delta as int;
        cues(SoundCue::Bounce, bounce_total(move_all(steer_all(rs, frame.axes, dt), dt), rs.len()))
            + cues(SoundCue::Score, frame_goals(rs, g, frame, Side::Left) + frame_goals(rs, g, frame, Side::Right))
    } else {
        seq![]
    }
}

/// The texts after a frame: the frame rate, then each score that changed.
pub open spec fn frame_texts(
    w: World,
    g: GameplayState,
    st: ScoreText,
    frame: FrameInput,
    left: int,
    right: int,
) -> Seq<Option<Seq<char>>> {
    let fps = w.shown(w.texts_view(), st.fps_display, fps_text(frame.centi_fps as nat));
    let with_left = if frame_goals(w.records@, g, frame, Side::Left) > 0 {
        w.shown(fps, st.p1_score, decimal(left as nat))
    } else {
        fps
    };
    if frame_goals(w.records@, g, frame, Side::Right) > 0 {
        w.shown(with_left, st.p2_score, decimal(right as nat))
    } else {
        with_left
    }
}

/// While the game is paused, a frame moves no paddle or ball, scores no goal
/// and asks for no sound, whatever the input.
pub proof fn lemma_paused_frame_is_still(rs: Seq<EntityRecord>, frame: FrameInput)
    ensures
        frame_records(rs, GameplayState::Paused, frame) == rs,
        frame_goals(rs, GameplayState::Paused, frame, Side::Left) == 0,
        frame_goals(rs, GameplayState::Paused, frame, Side::Right) == 0,
        frame_sounds(rs, GameplayState::Paused, frame) == Seq::<SoundCue>::empty(),
        forall|score: int| 0 <= score <= crate::arena::MAX_SCORE ==> capped_add(score, 0) == score,
{
    assert(frame_sounds(rs, GameplayState::Paused, frame) =~= Seq::<SoundCue>::empty());
}

/// A frame's gameplay is determined by its length and input alone: two frames
/// that differ only in the measured frame rate leave the same entities, the
/// same goals and sounds, and the same score displays, provided the
/// frame-rate display is neither score display.
pub proof fn lemma_frame_rate_is_cosmetic(
    w: World,
    g: GameplayState,
    st: ScoreText,
    f1: FrameInput,
    f2: FrameInput,
    left: int,
    right: int,
)
    requires
        f1.delta == f2.delta,
        f1.axes == f2.axes,
        st.fps_display != st.p1_score,
        st.fps_display != st.p2_score,
    ensures
        frame_records(w.records@, g, f1) == frame_records(w.records@, g, f2),
        frame_goals(w.records@, g, f1, Side::Left) == frame_goals(w.records@, g, f2, Side::Left),
        frame_goals(w.records@, g, f1, Side::Right) == frame_goals(w.records@, g, f2, Side::Right),
        frame_sounds(w.records@, g, f1) == frame_sounds(w.records@, g, f2),
        frame_texts(w, g, st, f1, left, right).len() == frame_texts(w, g, st, f2, left, right).len(),
        st.p1_score.0 < w.texts@.len() ==> frame_texts(w, g, st, f1, left, right)[st.p1_score.0 as int]
            == frame_texts(w, g, st, f2, left, right)[st.p1_score.0 as int],
        st.p2_score.0 < w.texts@.len() ==> frame_texts(w, g, st, f1, left, right)[st.p2_score.0 as int]
            == frame_texts(w, g, st, f2, left, right)[st.p2_score.0 as int],
{
    assert(bounced_records(w.records@, f1) == bounced_records(w.records@, f2));
}

/// Builds and runs the gameplay systems of one frame.
#[derive(Debug, Clone, Copy, PartialEq, Eq, Structural, Default)]
pub struct PongBundle;

impl PongBundle {
    /// Runs one frame of gameplay. While the game runs: the paddle system and
    /// the ball movement, then the collision system and the goal system, which
    /// both need the frame's final positions. While it is paused none of them
    /// runs, and only the frame-rate display is refreshed.
    pub fn dispatch(
        &self,
        gameplay: GameplayState,
        world: &mut World,
        board: &mut ScoreBoard,
        score_text: ScoreText,
        frame: FrameInput,
        sounds: &mut Vec<SoundCue>,
    )
        requires
            old(world).wf(),
            old(board).wf(),
            frame.axes.wf(),
        ensures
            final(world).wf(),
            final(board).wf(),
            final(world).keeps(old(world)),
            final(world).texts@.len() == old(world).texts@.len(),
            final(world).records@ == frame_records(old(world).records@, gameplay, frame),
            final(board).left() == capped_add(
                old(board).left(),
                frame_goals(old(world).records@, gameplay, frame, Side::Left),
            ),
            final(board).right() == capped_add(
                old(board).right(),
                frame_goals(old(world).records@, gameplay, frame, Side::Right),
            ),
            gameplay == GameplayState::Paused ==> *final(board) == *old(board),
            final(sounds)@ == old(sounds)@ + frame_sounds(old(world).records@, gameplay, frame),
            final(world).texts_view() == frame_texts(
                *old(world),
                gameplay,
                score_text,
                frame,
                final(board).left(),
                final(board).right(),
            ),
    {
        match gameplay {
            GameplayState::Paused => {
                show_fps(world, score_text, frame.centi_fps);
                assert(frame_sounds(old(world).records@, gameplay, frame) =~= seq![]);
                assert(sounds@ =~= old(sounds)@ + frame_sounds(old(world).records@, gameplay, frame));
            },
            GameplayState::Running => {
                let ghost w0 = *world;
                PaddleSystem.run(world, frame.axes, frame.delta);
                assert(world.records@ =~= steer_all(w0.records@, frame.axes, frame.delta as int));
                let ghost w1 = *world;
                MoveBallsSystem.run(world, frame.delta);
                assert(world.records@ =~= move_all(w1.records@, frame.delta as int));
                let ghost w2 = *world;
                BounceSystem.run(world, sounds);
                assert(world.records@ =~= bounce_all(w2.records@));
                let ghost w3 = *world;
                WinnerSystem.run(world, board, score_text, frame.centi_fps, sounds);
                assert(world.records@ =~= score_all(w3.records@));
                assert(sounds@ =~= old(sounds)@ + cues(SoundCue::Bounce, bounce_total(w2.records@, w2.records@.len()))
                    + cues(SoundCue::Score, goals(w3.records@, Side::Left, w3.records@.len()) + goals(w3.records@, Side::Right, w3.records@.len())));
                proof {
                    assert forall|e: crate::world::Entity| #[trigger] w3.spec_alive(e) == w0.spec_alive(e)
                        && w3.has_text(e) == w0.has_text(e) by {
                        if e.0 < w3.records@.len() {
                            assert(w3.records@[e.0 as int].alive == w0.records@[e.0 as int].alive);
                        }
                    }
                    assert(w3.texts_view() == w0.texts_view());
                    assert(w3.records@.len() == w0.records@.len());
                    assert forall|i: int| 0 <= i < w0.records@.len() implies #[trigger] world.records@[i].alive
                        == w0.records@[i].alive && world.records@[i].parent == w0.records@[i].parent by {
                        assert(world.records@[i] == after_goal(w3.records@[i]));
                        assert(w3.records@[i] == bounce_all(w2.records@)[i]);
                        assert(w2.records@[i] == move_all(w1.records@, frame.delta as int)[i]);
                        assert(w1.records@[i] == steer_all(w0.records@, frame.axes, frame.delta as int)[i]);
                    }
                }
            },
        }
    }
}

} // verus!
