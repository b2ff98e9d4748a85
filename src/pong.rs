//! The match: builds the arena, runs the gameplay dispatcher every frame and
//! brings the ball in once the spawn delay has passed.
use vstd::prelude::*;

use crate::arena::{
    ARENA_HEIGHT, ARENA_WIDTH, BALL_RADIUS, BALL_SPAWN_DELAY, BALL_VELOCITY_X, BALL_VELOCITY_Y,
    PADDLE_HEIGHT, PADDLE_VELOCITY, PADDLE_WIDTH,
};
use crate::bundle::{frame_records, frame_sounds, frame_goals, frame_texts, FrameInput, PongBundle};
use crate::components::{Ball, Paddle, Side};
use crate::states::{GameContext, GameStateEvent, GameplayState, Key, StateId, Trans, WindowEvent};
use crate::ui::{create_ui, Prefab};
use crate::winner::{capped_add, ScoreText};
use crate::world::{delete_hierarchy, deleted, Entity, EntityRecord, Transform, World};
use vstd::string::StringExecFns;

verus! {

/// A paddle at the middle height of its side.
pub open spec fn paddle_record(parent: Entity, side: Side) -> EntityRecord {
    EntityRecord {
        alive: true,
        parent: Some(parent),
        ui_id: None,
        transform: Some(
            Transform {
                x: if side == Side::Left {
                    (PADDLE_WIDTH / 2) as i64
                } else {
                    (ARENA_WIDTH - PADDLE_WIDTH / 2) as i64
                },
                y: (ARENA_HEIGHT / 2) as i64,
            },
        ),
        ball: None,
        paddle: Some(
            Paddle {
                velocity: PADDLE_VELOCITY,
                side,
                width: PADDLE_WIDTH,
                height: PADDLE_HEIGHT,
            },
        ),
        camera: false,
    }
}

/// A camera over the whole arena.
pub open spec fn camera_record(parent: Entity) -> EntityRecord {
    EntityRecord {
        alive: true,
        parent: Some(parent),
        ui_id: None,
        transform: Some(Transform { x: (ARENA_WIDTH / 2) as i64, y: (ARENA_HEIGHT / 2) as i64 }),
        ball: None,
        paddle: None,
        camera: true,
    }
}

/// A ball at `position`, or at the centre of the arena.
pub open spec fn ball_record(
    parent: Entity,
    radius: i64,
    velocity: [i64; 2],
    position: Option<[i64; 2]>,
) -> EntityRecord {
    EntityRecord {
        alive: true,
        parent: Some(parent),
        ui_id: None,
        transform: Some(
            match position {
                Some(p) => Transform { x: p[0], y: p[1] },
                None => Transform { x: (ARENA_WIDTH / 2) as i64, y: (ARENA_HEIGHT / 2) as i64 },
            },
        ),
        ball: Some(Ball { velocity, radius }),
        paddle: None,
        camera: false,
    }
}

/// The root of a match's entities: a bare position at the origin.
pub open spec fn scene_root_record() -> EntityRecord {
    EntityRecord {
        alive: true,
        parent: None,
        ui_id: None,
        transform: Some(Transform { x: 0, y: 0 }),
        ball: None,
        paddle: None,
        camera: false,
    }
}

/// Creates the camera, looking at the whole arena.
pub fn initialise_camera(world: &mut World, parent: Entity)
    requires
        old(world).wf(),
        parent.0 < old(world).records@.len(),
    ensures
        final(world).wf(),
        final(world).keeps(old(world)),
        final(world).records@ == old(world).records@.push(camera_record(parent)),
        final(world).texts@ == old(world).texts@.push(None),
{
    let rec = EntityRecord {
        alive: true,
        parent: Some(parent),
        ui_id: None,
        transform: Some(Transform { x: ARENA_WIDTH / 2, y: ARENA_HEIGHT / 2 }),
        ball: None,
        paddle: None,
        camera: true,
    };
    world.create_entity(rec, None);
}

/// Creates one paddle on the left and one on the right, both at middle height.
pub fn initialise_paddles(world: &mut World, parent: Entity)
    requires
        old(world).wf(),
        parent.0 < old(world).records@.len(),
    ensures
        final(world).wf(),
        final(world).keeps(old(world)),
        final(world).records@ == old(world).records@.push(paddle_record(parent, Side::Left)).push(
            paddle_record(parent, Side::Right),
        ),
        final(world).texts@ == old(world).texts@.push(None).push(None),
{
    let y = ARENA_HEIGHT / 2;
    let left = EntityRecord {
        alive: true,
        parent: Some(parent),
        ui_id: None,
        transform: Some(Transform { x: PADDLE_WIDTH / 2, y }),
        ball: None,
        paddle: Some(
            Paddle {
                velocity: PADDLE_VELOCITY,
                side: Side::Left,
                width: PADDLE_WIDTH,
                height: PADDLE_HEIGHT,
            },
        ),
        camera: false,
    };
    world.create_entity(left, None);
    let right = EntityRecord {
        alive: true,
        parent: Some(parent),
        ui_id: None,
        transform: Some(Transform { x: ARENA_WIDTH - PADDLE_WIDTH / 2, y }),
        ball: None,
        paddle: Some(
            Paddle {
                velocity: PADDLE_VELOCITY,
                side: Side::Right,
                width: PADDLE_WIDTH,
                height: PADDLE_HEIGHT,
            },
        ),
        camera: false,
    };
    world.create_entity(right, None);
}

/// Creates a ball of `radius` moving at `velocity`, at `position` or else at
/// the centre of the arena.
pub fn initialise_ball(
    world: &mut World,
    parent: Entity,
    radius: i64,
    velocity: [i64; 2],
    position: Option<[i64; 2]>,
) -> (r: Entity)
    requires
        old(world).wf(),
        parent.0 < old(world).records@.len(),
        velocity[0] > i64::MIN,
        velocity[1] > i64::MIN,
    ensures
        final(world).wf(),
        final(world).keeps(old(world)),
        r == old(world).next_entity(),
        final(world).records@ == old(world).records@.push(
            ball_record(parent, radius, velocity, position),
        ),
        final(world).texts@ == old(world).texts@.push(None),
{
    let transform = match position {
        Some(p) => Transform { x: p[0], y: p[1] },
        None => Transform { x: ARENA_WIDTH / 2, y: ARENA_HEIGHT / 2 },
    };
    let rec = EntityRecord {
        alive: true,
        parent: Some(parent),
        ui_id: None,
        transform: Some(transform),
        ball: Some(Ball { velocity, radius }),
        paddle: None,
        camera: false,
    };
    world.create_entity(rec, None)
}

/// Creates the two score displays and the frame-rate display beneath
/// `parent`, each reading "0", and returns them.
pub fn initialise_score(world: &mut World, parent: Entity) -> (r: ScoreText)
    requires
        old(world).wf(),
        parent.0 < old(world).records@.len(),
    ensures
        final(world).wf(),
        final(world).keeps(old(world)),
        r.p1_score.0 == old(world).records@.len(),
        r.p2_score.0 == old(world).records@.len() + 1,
        r.fps_display.0 == old(world).records@.len() + 2,
        final(world).records@ == old(world).records@.push(EntityRecord::bare(Some(parent))).push(
            EntityRecord::bare(Some(parent)),
        ).push(EntityRecord::bare(Some(parent))),
        final(world).texts@.len() == old(world).texts@.len() + 3,
        final(world).texts_view() == old(world).texts_view().push(Some(seq!['0'])).push(
            Some(seq!['0']),
        ).push(Some(seq!['0'])),
{
    proof {
        reveal_strlit("0");
    }
    let t1 = String::from_str("0");
    let t2 = String::from_str("0");
    let t3 = String::from_str("0");
    assert(t1@ =~= seq!['0'] && t2@ =~= seq!['0'] && t3@ =~= seq!['0']);
    let p1_score = world.create_entity(EntityRecord::new(Some(parent)), Some(t1));
    let p2_score = world.create_entity(EntityRecord::new(Some(parent)), Some(t2));
    let fps_display = world.create_entity(EntityRecord::new(Some(parent)), Some(t3));
    assert(world.texts_view() =~= old(world).texts_view().push(Some(seq!['0'])).push(
        Some(seq!['0']),
    ).push(Some(seq!['0'])));
    ScoreText { p1_score, p2_score, fps_display }
}

/// The entities a match starts with, the first of them numbered `n`: the
/// scene root, the interface root, the two paddles and the camera beneath the
/// scene root, and the three displays beneath the interface root.
pub open spec fn match_scene(n: nat) -> Seq<EntityRecord> {
    let root = Entity(n as usize);
    let hud = Entity((n + 1) as usize);
    seq![
        scene_root_record(),
        EntityRecord::bare(None),
        paddle_record(root, Side::Left),
        paddle_record(root, Side::Right),
        camera_record(root),
        EntityRecord::bare(Some(hud)),
        EntityRecord::bare(Some(hud)),
        EntityRecord::bare(Some(hud)),
    ]
}

/// The match state.
#[derive(Debug, Clone, Copy, PartialEq, Eq, Structural, Default)]
pub struct Pong {
    /// Microseconds left before the ball appears.
    pub ball_spawn_timer: Option<u64>,
    pub dispatcher: Option<PongBundle>,
    pub root_entity: Option<Entity>,
    pub ui_root: Option<Entity>,
    pub score_text: Option<ScoreText>,
}

impl Pong {
    /// The dispatcher and the displays it writes to are both there.
    pub open spec fn runs_frames(self) -> bool {
        self.dispatcher is Some && self.score_text is Some
    }

    /// The spawn timer after a frame of `delta` microseconds; it only runs
    /// while the game does.
    pub open spec fn next_timer(self, g: GameplayState, delta: u32) -> Option<u64> {
        match self.ball_spawn_timer {
            Some(t) => if g == GameplayState::Running {
                if delta >= t {
                    None
                } else {
                    Some((t - delta) as u64)
                }
            } else {
                Some(t)
            },
            None => None,
        }
    }

    /// The ball appears this frame.
    pub open spec fn spawns(self, g: GameplayState, delta: u32) -> bool {
        g == GameplayState::Running && self.root_entity is Some && (match self.ball_spawn_timer {
            Some(t) => delta >= t,
            None => false,
        })
    }

    /// One frame of the match's update: the gameplay dispatch, then, while the
    /// game runs, the spawn timer and the ball it brings in.
    pub open spec fn frame_step(
        before: Pong,
        ctx0: GameContext,
        frame: FrameInput,
        after: Pong,
        ctx1: GameContext,
    ) -> bool {
        &&& after == (Pong {
                ball_spawn_timer: before.next_timer(ctx0.gameplay, frame.delta),
                ..before
            })
        &&& ({
                let g = ctx0.gameplay;
                let w = ctx0.world;
                let runs = before.runs_frames();
                let records = if runs {
                    frame_records(w.records@, g, frame)
                } else {
                    w.records@
                };
                let texts = if runs {
                    frame_texts(
                        w,
                        g,
                        before.score_text.unwrap(),
                        frame,
                        ctx1.score_board.left(),
                        ctx1.score_board.right(),
                    )
                } else {
                    w.texts_view()
                };
                let ball = ball_record(
                    before.root_entity.unwrap(),
                    BALL_RADIUS,
                    [BALL_VELOCITY_X, BALL_VELOCITY_Y],
                    None,
                );
                &&& ctx1.world.records@ == if before.spawns(g, frame.delta) {
                    records.push(ball)
                } else {
                    records
                }
                &&& ctx1.world.texts_view() == if before.spawns(g, frame.delta) {
                    texts.push(None)
                } else {
                    texts
                }
                &&& ctx1.sounds@ == if runs {
                    ctx0.sounds@ + frame_sounds(w.records@, g, frame)
                } else {
                    ctx0.sounds@
                }
                &&& runs ==> ctx1.score_board.left() == capped_add(
                    ctx0.score_board.left(),
                    frame_goals(w.records@, g, frame, Side::Left),
                ) && ctx1.score_board.right() == capped_add(
                    ctx0.score_board.right(),
                    frame_goals(w.records@, g, frame, Side::Right),
                )
                &&& (!runs || g == GameplayState::Paused) ==> ctx1.score_board == ctx0.score_board
            })
    }

    /// While the game is paused, a frame of the match changes no entity, no
    /// score, asks for no sound and leaves the spawn timer where it was,
    /// whatever the input.
    pub proof fn lemma_paused_match_is_still(
        before: Pong,
        ctx0: GameContext,
        frame: FrameInput,
        after: Pong,
        ctx1: GameContext,
    )
        requires
            Pong::frame_step(before, ctx0, frame, after, ctx1),
            ctx0.gameplay == GameplayState::Paused,
        ensures
            ctx1.world.records@ == ctx0.world.records@,
            ctx1.score_board == ctx0.score_board,
            ctx1.sounds@ == ctx0.sounds@,
            after == before,
    {
        assert(frame_sounds(ctx0.world.records@, ctx0.gameplay, frame) =~= seq![]);
        assert(ctx0.sounds@ + frame_sounds(ctx0.world.records@, ctx0.gameplay, frame) =~= ctx0.sounds@);
    }

    /// Runs the game, builds the dispatcher, creates the scene, the interface
    /// and the score displays, and sets the ball to appear after the spawn delay.
    pub fn on_start(&mut self, ctx: &mut GameContext)
        requires
            old(ctx).wf(),
        ensures
            final(ctx).wf(),
            final(ctx).gameplay == GameplayState::Running,
            final(ctx).score_board == old(ctx).score_board,
            final(ctx).sounds@ == old(ctx).sounds@,
            final(ctx).deferred@ == old(ctx).deferred@,
            final(ctx).load_progress == old(ctx).load_progress,
            final(ctx).world.keeps(&old(ctx).world),
            final(ctx).world.records@ == old(ctx).world.records@ + match_scene(
                old(ctx).world.records@.len(),
            ),
            final(ctx).world.texts_view() == old(ctx).world.texts_view() + seq![
                None,
                None,
                None,
                None,
                None,
                Some(seq!['0']),
                Some(seq!['0']),
                Some(seq!['0']),
            ],
            ({
                let n = old(ctx).world.records@.len();
                *final(self) == Pong {
                    ball_spawn_timer: Some(BALL_SPAWN_DELAY),
                    dispatcher: Some(PongBundle),
                    root_entity: Some(Entity(n as usize)),
                    ui_root: Some(Entity((n + 1) as usize)),
                    score_text: Some(
                        ScoreText {
                            p1_score: Entity((n + 5) as usize),
                            p2_score: Entity((n + 6) as usize),
                            fps_display: Entity((n + 7) as usize),
                        },
                    ),
                }
            }),
            final(ctx).world.is_root(Entity(old(ctx).world.records@.len() as usize)),
            final(ctx).world.is_root(Entity((old(ctx).world.records@.len() + 1) as usize)),
    {
        ctx.gameplay = GameplayState::Running;
        self.dispatcher = Some(PongBundle);
        self.ball_spawn_timer = Some(BALL_SPAWN_DELAY);
        let ghost w0 = ctx.world;
        let root_rec = EntityRecord {
            alive: true,
            parent: None,
            ui_id: None,
            transform: Some(Transform { x: 0, y: 0 }),
            ball: None,
            paddle: None,
            camera: false,
        };
        let root = ctx.world.create_entity(root_rec, None);
        let ui_root = create_ui(&mut ctx.world, Prefab::Hud);
        initialise_paddles(&mut ctx.world, root);
        initialise_camera(&mut ctx.world, root);
        let score_text = initialise_score(&mut ctx.world, ui_root);
        self.root_entity = Some(root);
        self.ui_root = Some(ui_root);
        self.score_text = Some(score_text);
        assert(ctx.world.records@ =~= w0.records@ + match_scene(w0.records@.len()));
        assert(ctx.world.texts_view() =~= w0.texts_view() + seq![
            None,
            None,
            None,
            None,
            None,
            Some(seq!['0']),
            Some(seq!['0']),
            Some(seq!['0']),
        ]);
    }

    /// Deletes the scene and the interface, each with everything beneath it.
    pub fn on_stop(&mut self, ctx: &mut GameContext)
        requires
            old(ctx).wf(),
            old(ctx).world.alive_if_held(old(self).root_entity),
            old(self).ui_root matches Some(u) ==> (old(ctx).world.is_root(u) && old(self).root_entity
                != Some(u)),
        ensures
            final(ctx).wf(),
            final(ctx).same_resources(old(ctx)),
            final(ctx).world.texts@ == old(ctx).world.texts@,
            *final(self) == (Pong { root_entity: None, ui_root: None, ..*old(self) }),
            ({
                let scene = match old(self).root_entity {
                    Some(r) => deleted(old(ctx).world.records@, r.0 as nat),
                    None => old(ctx).world.records@,
                };
                final(ctx).world.records@ == match old(self).ui_root {
                    Some(u) => deleted(scene, u.0 as nat),
                    None => scene,
                }
            }),
    {
        if let Some(root) = self.root_entity {
            let _ = delete_hierarchy(root, &mut ctx.world);
        }
        self.root_entity = None;
        if let Some(ui) = self.ui_root {
            let _ = delete_hierarchy(ui, &mut ctx.world);
        }
        self.ui_root = None;
    }

    /// Another state was pushed over the match: the game pauses.
    pub fn on_pause(&mut self, ctx: &mut GameContext)
        ensures
            final(ctx).gameplay == GameplayState::Paused,
            *final(self) == *old(self),
            final(ctx).world == old(ctx).world,
            final(ctx).score_board == old(ctx).score_board,
            final(ctx).sounds@ == old(ctx).sounds@,
            final(ctx).deferred@ == old(ctx).deferred@,
            final(ctx).load_progress == old(ctx).load_progress,
    {
        ctx.gameplay = GameplayState::Paused;
    }

    /// The match is on top again: the game runs.
    pub fn on_resume(&mut self, ctx: &mut GameContext)
        ensures
            final(ctx).gameplay == GameplayState::Running,
            *final(self) == *old(self),
            final(ctx).world == old(ctx).world,
            final(ctx).score_board == old(ctx).score_board,
            final(ctx).sounds@ == old(ctx).sounds@,
            final(ctx).deferred@ == old(ctx).deferred@,
            final(ctx).load_progress == old(ctx).load_progress,
    {
        ctx.gameplay = GameplayState::Running;
    }

    /// Quits on a close request; pushes the pause menu on escape.
    pub fn handle_event(&self, event: GameStateEvent) -> (r: Trans)
        ensures
            r == if event.is_close() {
                Trans::Quit
            } else if event.is_escape() {
                Trans::Push(StateId::PauseMenu)
            } else {
                Trans::Stay
            },
    {
        match event {
            GameStateEvent::Window(WindowEvent::CloseRequested) => Trans::Quit,
            GameStateEvent::Window(WindowEvent::KeyPressed(Key::Escape)) => Trans::Push(
                StateId::PauseMenu,
            ),
            _ => Trans::Stay,
        }
    }

    /// Runs the gameplay dispatcher for the frame. While the game runs, the
    /// spawn timer then counts down by the frame's length, and the ball
    /// appears at the centre of the arena when it expires.
    pub fn update(&mut self, ctx: &mut GameContext, frame: FrameInput) -> (r: Trans)
        requires
            old(ctx).wf(),
            frame.axes.wf(),
            old(ctx).world.alive_if_held(old(self).root_entity),
        ensures
            r == Trans::Stay,
            final(ctx).wf(),
            final(ctx).world.keeps(&old(ctx).world),
            final(ctx).gameplay == old(ctx).gameplay,
            final(ctx).deferred@ == old(ctx).deferred@,
            final(ctx).load_progress == old(ctx).load_progress,
            Pong::frame_step(*old(self), *old(ctx), frame, *final(self), *final(ctx)),
    {
        match (self.dispatcher, self.score_text) {
            (Some(d), Some(st)) => {
                d.dispatch(ctx.gameplay, &mut ctx.world, &mut ctx.score_board, st, frame, &mut ctx.sounds);
            },
            _ => {},
        }
        match ctx.gameplay {
            GameplayState::Paused => {
                return Trans::Stay;
            },
            GameplayState::Running => {},
        }
        if let Some(t) = self.ball_spawn_timer {
            if frame.delta as u64 >= t {
                self.ball_spawn_timer = None;
                if let Some(root) = self.root_entity {
                    let ghost before = ctx.world;
                    initialise_ball(
                        &mut ctx.world,
                        root,
                        BALL_RADIUS,
                        [BALL_VELOCITY_X, BALL_VELOCITY_Y],
                        None,
                    );
                    assert(ctx.world.texts_view() =~= before.texts_view().push(None));
                }
            } else {
                self.ball_spawn_timer = Some(t - frame.delta as u64);
            }
        }
        Trans::Stay
    }
}

} // verus!
