//! The pushdown stack of game states, driven by events, queued transitions and
//! frame updates.
use vstd::prelude::*;

use crate::bundle::FrameInput;
use crate::credits::CreditsScreen;
use crate::menu::MainMenu;
use crate::pause::PauseMenuState;
use crate::pong::Pong;
use crate::states::{
    Completion, GameContext, GameStateEvent, GameplayState, StateId, Trans,
};
use crate::welcome::WelcomeScreen;
use crate::world::{deleted, in_tree, lemma_parentless_outside, Entity, EntityRecord};

verus! {

/// One state of the stack.
#[derive(Debug, Clone, Copy, PartialEq, Eq, Structural)]
pub enum GameState {
    Welcome(WelcomeScreen),
    MainMenu(MainMenu),
    Pong(Pong),
    PauseMenu(PauseMenuState),
    Credits(CreditsScreen),
}

impl GameState {
    pub open spec fn id(self) -> StateId {
        match self {
            GameState::Welcome(_) => StateId::Welcome,
            GameState::MainMenu(_) => StateId::MainMenu,
            GameState::Pong(_) => StateId::Pong,
            GameState::PauseMenu(_) => StateId::PauseMenu,
            GameState::Credits(_) => StateId::Credits,
        }
    }

    /// `e` is the root of entities that this state created and deletes when it stops.
    pub open spec fn owns(self, e: Entity) -> bool {
        match self {
            GameState::Welcome(s) => s.ui_handle == Some(e),
            GameState::MainMenu(s) => s.ui_root == Some(e),
            GameState::Pong(s) => s.root_entity == Some(e) || s.ui_root == Some(e),
            GameState::PauseMenu(s) => s.root == Some(e),
            GameState::Credits(s) => s.ui_handle == Some(e),
        }
    }

    /// A match's two roots are different entities.
    pub open spec fn wf(self) -> bool {
        match self {
            GameState::Pong(p) => p.root_entity is Some ==> p.root_entity != p.ui_root,
            _ => true,
        }
    }

    /// The transition the state's event handler asks for.
    pub open spec fn decision(self, ctx: &GameContext, event: GameStateEvent) -> Trans {
        match self {
            GameState::Welcome(_) => if event.is_close() || event.is_escape() {
                Trans::Quit
            } else if event.is_left_click() && ctx.load_progress != Completion::Loading {
                Trans::Switch(StateId::MainMenu)
            } else {
                Trans::Stay
            },
            GameState::MainMenu(s) => if event.is_close() {
                Trans::Quit
            } else if event.is_escape() {
                Trans::Switch(StateId::Welcome)
            } else if event.clicks(s.button_credits) {
                Trans::Switch(StateId::Credits)
            } else if event.clicks(s.button_start) {
                Trans::Switch(StateId::Pong)
            } else {
                Trans::Stay
            },
            GameState::Pong(_) => if event.is_close() {
                Trans::Quit
            } else if event.is_escape() {
                Trans::Push(StateId::PauseMenu)
            } else {
                Trans::Stay
            },
            GameState::PauseMenu(s) => if event.is_close() {
                Trans::Quit
            } else if event.is_escape() || event.clicks(s.resume_button) {
                Trans::Pop
            } else if event.clicks(s.exit_to_main_menu_button) {
                Trans::Stay
            } else if event.clicks(s.exit_button) {
                Trans::Quit
            } else {
                Trans::Stay
            },
            GameState::Credits(_) => if event.is_close() {
                Trans::Quit
            } else if event.is_escape() || event.is_click() {
                Trans::Switch(StateId::MainMenu)
            } else {
                Trans::Stay
            },
        }
    }

    /// A state that has not started yet.
    pub fn fresh(id: StateId) -> (r: GameState)
        ensures
            r.id() == id,
            forall|e: Entity| !r.owns(e),
            r.wf(),
    {
        match id {
            StateId::Welcome => GameState::Welcome(WelcomeScreen { ui_handle: None }),
            StateId::MainMenu => GameState::MainMenu(
                MainMenu {
                    ui_root: None,
                    button_start: None,
                    button_load: None,
                    button_options: None,
                    button_credits: None,
                },
            ),
            StateId::Pong => GameState::Pong(
                Pong {
                    ball_spawn_timer: None,
                    dispatcher: None,
                    root_entity: None,
                    ui_root: None,
                    score_text: None,
                },
            ),
            StateId::PauseMenu => GameState::PauseMenu(
                PauseMenuState {
                    resume_button: None,
                    exit_to_main_menu_button: None,
                    exit_button: None,
                    root: None,
                },
            ),
            StateId::Credits => GameState::Credits(CreditsScreen { ui_handle: None }),
        }
    }
}

/// What the update of state `before` on context `ctx0` leaves: the state
/// `after` and the context `ctx1`.
pub open spec fn top_updated(
    before: GameState,
    ctx0: GameContext,
    frame: FrameInput,
    after: GameState,
    ctx1: GameContext,
) -> bool {
    match before {
        GameState::Pong(p) => match after {
            GameState::Pong(q) => Pong::frame_step(p, ctx0, frame, q, ctx1),
            _ => false,
        },
        GameState::MainMenu(m) => match after {
            GameState::MainMenu(n) => ctx1 == ctx0 && m.looked_up(&ctx0.world, n),
            _ => false,
        },
        GameState::PauseMenu(m) => match after {
            GameState::PauseMenu(n) => ctx1 == ctx0 && m.looked_up(&ctx0.world, n),
            _ => false,
        },
        _ => after == before && ctx1 == ctx0,
    }
}

/// The sequence of states after transition `t`.
pub open spec fn next_ids(ids: Seq<StateId>, t: Trans) -> Seq<StateId> {
    match t {
        Trans::Stay => ids,
        Trans::Pop => if ids.len() > 0 {
            ids.drop_last()
        } else {
            ids
        },
        Trans::Push(id) => ids.push(id),
        Trans::Switch(id) => if ids.len() > 0 {
            ids.drop_last().push(id)
        } else {
            ids.push(id)
        },
        Trans::Quit => seq![],
    }
}

/// The states after transition `t`, which only a running stack takes.
pub open spec fn step_ids(ids: Seq<StateId>, t: Trans) -> Seq<StateId> {
    if ids.len() > 0 {
        next_ids(ids, t)
    } else {
        ids
    }
}

/// The states after the transitions `ts`, in order.
pub open spec fn ids_after(ids: Seq<StateId>, ts: Seq<Trans>) -> Seq<StateId>
    decreases ts.len(),
{
    if ts.len() == 0 {
        ids
    } else {
        step_ids(ids_after(ids, ts.drop_last()), ts.last())
    }
}

/// The gameplay flag after transition `t` on a running stack: a match runs
/// when it starts or comes back on top, and pauses when a state is pushed
/// over it; the welcome screen pauses the game.
pub open spec fn gameplay_after(ids: Seq<StateId>, g: GameplayState, t: Trans) -> GameplayState {
    match t {
        Trans::Push(id) => if id == StateId::Pong {
            GameplayState::Running
        } else if id == StateId::Welcome {
            GameplayState::Paused
        } else if ids.len() > 0 && ids.last() == StateId::Pong {
            GameplayState::Paused
        } else {
            g
        },
        Trans::Pop => if ids.len() > 1 && ids[ids.len() - 2] == StateId::Pong {
            GameplayState::Running
        } else {
            g
        },
        Trans::Switch(id) => if id == StateId::Pong {
            GameplayState::Running
        } else if id == StateId::Welcome {
            GameplayState::Paused
        } else {
            g
        },
        _ => g,
    }
}

/// The gameplay flag after the transitions `ts`, in order, each taken only by
/// a running stack.
pub open spec fn gameplay_after_all(ids: Seq<StateId>, g: GameplayState, ts: Seq<Trans>) -> GameplayState
    decreases ts.len(),
{
    if ts.len() == 0 {
        g
    } else {
        let before = ids_after(ids, ts.drop_last());
        let g0 = gameplay_after_all(ids, g, ts.drop_last());
        if before.len() > 0 {
            gameplay_after(before, g0, ts.last())
        } else {
            g0
        }
    }
}

/// Some state of `states` holds the root `e`.
pub open spec fn held(states: Seq<GameState>, e: Entity) -> bool {
    exists|i: int| 0 <= i < states.len() && #[trigger] states[i].owns(e)
}

/// A live root survives the deletion of another root's hierarchy.
proof fn lemma_other_root_survives(records: Seq<EntityRecord>, r: nat, e: Entity)
    requires
        e.0 < records.len(),
        records[e.0 as int].alive,
        records[e.0 as int].parent is None,
        e.0 != r,
    ensures
        deleted(records, r)[e.0 as int].alive,
        deleted(records, r)[e.0 as int].parent is None,
        deleted(records, r).len() == records.len(),
{
    lemma_parentless_outside(records, e.0 as nat, r);
}

/// The game: its stack of states, the context they act on, and whether it
/// still runs.
pub struct Application {
    pub states: Vec<GameState>,
    pub ctx: GameContext,
    pub running: bool,
}

impl Application {
    pub open spec fn ids(&self) -> Seq<StateId> {
        self.states@.map_values(|s: GameState| s.id())
    }

    /// Every root a state holds is a live root entity.
    pub open spec fn roots_ok(&self) -> bool {
        forall|i: int, e: Entity|
            0 <= i < self.states@.len() && #[trigger] self.states@[i].owns(e)
                ==> self.ctx.world.is_root(e)
    }

    /// No two states hold the same root.
    pub open spec fn roots_disjoint(&self) -> bool {
        forall|i: int, j: int, e: Entity|
            0 <= i < j < self.states@.len() && #[trigger] self.states@[i].owns(e)
                ==> !#[trigger] self.states@[j].owns(e)
    }

    pub open spec fn inv(&self) -> bool {
        &&& self.ctx.wf()
        &&& self.roots_ok()
        &&& self.roots_disjoint()
        &&& forall|i: int| 0 <= i < self.states@.len() ==> (#[trigger] self.states@[i]).wf()
        &&& self.running == (self.states@.len() > 0)
    }

    /// Starts a fresh state of kind `id` and pushes it.
    fn start(&mut self, id: StateId)
        requires
            old(self).roots_inv(),
        ensures
            final(self).roots_inv(),
            final(self).ctx.world.keeps(&old(self).ctx.world),
            final(self).ctx.deferred@ == old(self).ctx.deferred@,
            final(self).ctx.load_progress == old(self).ctx.load_progress,
            final(self).ids() == old(self).ids().push(id),
            final(self).states@.drop_last() == old(self).states@,
            final(self).states@.len() == old(self).states@.len() + 1,
            final(self).running == old(self).running,
            id == StateId::Pong ==> final(self).ctx.gameplay == GameplayState::Running,
            id == StateId::Welcome ==> final(self).ctx.gameplay == GameplayState::Paused,
            id != StateId::Pong && id != StateId::Welcome ==> final(self).ctx.gameplay == old(
                self,
            ).ctx.gameplay,
    {
        let ghost w0 = self.ctx.world;
        let n = self.ctx.world.len();
        let state = match id {
            StateId::Welcome => {
                let mut s = WelcomeScreen { ui_handle: None };
                s.on_start(&mut self.ctx);
                let st = GameState::Welcome(s);
                assert forall|e: Entity| #[trigger] st.owns(e) implies self.ctx.world.is_root(e) && e.0 >= n by {}
                assert(st.wf());
                st
            },
            StateId::MainMenu => {
                let mut s = MainMenu {
                    ui_root: None,
                    button_start: None,
                    button_load: None,
                    button_options: None,
                    button_credits: None,
                };
                s.on_start(&mut self.ctx);
                let st = GameState::MainMenu(s);
                assert forall|e: Entity| #[trigger] st.owns(e) implies self.ctx.world.is_root(e) && e.0 >= n by {}
                assert(st.wf());
                st
            },
            StateId::Pong => {
                let mut s = Pong {
                    ball_spawn_timer: None,
                    dispatcher: None,
                    root_entity: None,
                    ui_root: None,
                    score_text: None,
                };
                s.on_start(&mut self.ctx);
                let _count = self.ctx.world.len();
                let st = GameState::Pong(s);
                assert forall|e: Entity| #[trigger] st.owns(e) implies self.ctx.world.is_root(e) && e.0 >= n by {}
                assert(st.wf());
                st
            },
            StateId::PauseMenu => {
                let mut s = PauseMenuState {
                    resume_button: None,
                    exit_to_main_menu_button: None,
                    exit_button: None,
                    root: None,
                };
                s.on_start(&mut self.ctx);
                let st = GameState::PauseMenu(s);
                assert forall|e: Entity| #[trigger] st.owns(e) implies self.ctx.world.is_root(e) && e.0 >= n by {}
                assert(st.wf());
                st
            },
            StateId::Credits => {
                let mut s = CreditsScreen { ui_handle: None };
                s.on_start(&mut self.ctx);
                let st = GameState::Credits(s);
                assert forall|e: Entity| #[trigger] st.owns(e) implies self.ctx.world.is_root(e) && e.0 >= n by {}
                assert(st.wf());
                st
            },
        };
        proof {
            assert forall|e: Entity| #[trigger] state.owns(e) implies self.ctx.world.is_root(e) && e.0 >= n by {}
            assert forall|i: int, e: Entity|
                0 <= i < self.states@.len() && #[trigger] self.states@[i].owns(e)
                implies self.ctx.world.is_root(e) && e.0 < n by {
                assert(w0.is_root(e));
                assert(self.ctx.world.records@[e.0 as int].alive == w0.records@[e.0 as int].alive);
            }
        }
        let ghost before = self.states@;
        self.states.push(state);
        proof {
            assert(self.states@.drop_last() =~= old(self).states@);
            assert(self.ids() =~= old(self).ids().push(id));
            assert forall|i: int, e: Entity|
                0 <= i < self.states@.len() && #[trigger] self.states@[i].owns(e)
                implies self.ctx.world.is_root(e) by {
                if i < before.len() {
                    assert(before[i] == self.states@[i]);
                }
            }
            assert forall|i: int, j: int, e: Entity|
                0 <= i < j < self.states@.len() && #[trigger] self.states@[i].owns(e)
                implies !#[trigger] self.states@[j].owns(e) by {
                assert(before[i] == self.states@[i]);
                if j < before.len() {
                    assert(before[j] == self.states@[j]);
                }
            }
        }
    }

    /// The state stack without its ownership facts: the context is well formed,
    /// roots are live and unshared, and every state is well formed.
    pub open spec fn roots_inv(&self) -> bool {
        &&& self.ctx.wf()
        &&& self.roots_ok()
        &&& self.roots_disjoint()
        &&& forall|i: int| 0 <= i < self.states@.len() ==> (#[trigger] self.states@[i]).wf()
    }

    /// Stops the top state and pops it.
    fn stop_top(&mut self)
        requires
            old(self).roots_inv(),
            old(self).states@.len() > 0,
        ensures
            final(self).roots_inv(),
            final(self).ids() == old(self).ids().drop_last(),
            final(self).states@ == old(self).states@.drop_last(),
            final(self).running == old(self).running,
            final(self).ctx.gameplay == old(self).ctx.gameplay,
            forall|e: Entity| #[trigger] old(self).states@.last().owns(e) ==> !final(self).ctx.world.spec_alive(e),
            forall|e: Entity| !old(self).ctx.world.spec_alive(e) ==> !#[trigger] final(self).ctx.world.spec_alive(e),
            final(self).ctx.world.records@.len() == old(self).ctx.world.records@.len(),
            final(self).ctx.deferred@ == old(self).ctx.deferred@,
            final(self).ctx.load_progress == old(self).ctx.load_progress,
    {
        let ghost before = self.states@;
        let ghost w0 = self.ctx.world;
        let top = self.states.pop().unwrap();
        match top {
            GameState::Welcome(s) => {
                let mut s = s;
                assert(s.ui_handle is Some ==> top.owns(s.ui_handle.unwrap()));
                s.on_stop(&mut self.ctx);
            },
            GameState::MainMenu(s) => {
                let mut s = s;
                assert(s.ui_root is Some ==> top.owns(s.ui_root.unwrap()));
                s.on_stop(&mut self.ctx);
            },
            GameState::Pong(s) => {
                let mut s = s;
                assert(s.root_entity is Some ==> top.owns(s.root_entity.unwrap()));
                assert(s.ui_root is Some ==> top.owns(s.ui_root.unwrap()));
                s.on_stop(&mut self.ctx);
            },
            GameState::PauseMenu(s) => {
                let mut s = s;
                assert(s.root is Some ==> top.owns(s.root.unwrap()));
                s.on_stop(&mut self.ctx);
            },
            GameState::Credits(s) => {
                let mut s = s;
                assert(s.ui_handle is Some ==> top.owns(s.ui_handle.unwrap()));
                s.on_stop(&mut self.ctx);
            },
        }
        proof {
            assert(self.states@ =~= old(self).states@.drop_last());
            assert(self.ids() =~= old(self).ids().drop_last());
            assert forall|e: Entity| #[trigger] top.owns(e) implies !self.ctx.world.spec_alive(e) by {
                let rs = w0.records@;
                if let GameState::Pong(p) = top {
                    if p.root_entity == Some(e) {
                        assert(in_tree(rs, e.0 as nat, e.0 as nat));
                        if let Some(u) = p.ui_root {
                            assert(!deleted(rs, e.0 as nat)[e.0 as int].alive);
                        }
                    } else {
                        let mid = match p.root_entity {
                            Some(r) => deleted(rs, r.0 as nat),
                            None => rs,
                        };
                        assert(in_tree(mid, e.0 as nat, e.0 as nat));
                    }
                } else {
                    assert(in_tree(rs, e.0 as nat, e.0 as nat));
                }
            }
            assert forall|i: int, e: Entity|
                0 <= i < self.states@.len() && #[trigger] self.states@[i].owns(e)
                implies self.ctx.world.is_root(e) by {
                assert(before[i].owns(e));
                assert(w0.is_root(e));
                assert(!top.owns(e));
                let rs = w0.records@;
                match top {
                    GameState::Pong(p) => {
                        let mid = match p.root_entity {
                            Some(r) => deleted(rs, r.0 as nat),
                            None => rs,
                        };
                        if let Some(r) = p.root_entity {
                            lemma_other_root_survives(rs, r.0 as nat, e);
                        }
                        if let Some(u) = p.ui_root {
                            lemma_other_root_survives(mid, u.0 as nat, e);
                        }
                    },
                    GameState::Welcome(x) => {
                        if let Some(r) = x.ui_handle {
                            lemma_other_root_survives(rs, r.0 as nat, e);
                        }
                    },
                    GameState::MainMenu(x) => {
                        if let Some(r) = x.ui_root {
                            lemma_other_root_survives(rs, r.0 as nat, e);
                        }
                    },
                    GameState::PauseMenu(x) => {
                        if let Some(r) = x.root {
                            lemma_other_root_survives(rs, r.0 as nat, e);
                        }
                    },
                    GameState::Credits(x) => {
                        if let Some(r) = x.ui_handle {
                            lemma_other_root_survives(rs, r.0 as nat, e);
                        }
                    },
                }
            }
        }
    }

    /// Applies transition `t` to a running stack. Pop stops the top state and
    /// resumes the one beneath; push pauses the top state and starts the new
    /// one over it; switch stops the top state and starts the new one in its
    /// place; quit stops every state, top first. The game stops running once
    /// the stack is empty.
    pub fn transition(&mut self, t: Trans)
        requires
            old(self).inv(),
        ensures
            final(self).inv(),
            final(self).ids() == step_ids(old(self).ids(), t),
            final(self).ctx.gameplay == if old(self).running {
                gameplay_after(old(self).ids(), old(self).ctx.gameplay, t)
            } else {
                old(self).ctx.gameplay
            },
            final(self).ctx.deferred@ == old(self).ctx.deferred@,
            final(self).ctx.load_progress == old(self).ctx.load_progress,
            old(self).running && (t == Trans::Pop || t is Switch) ==> forall|e: Entity|
                #[trigger] old(self).states@.last().owns(e) ==> !final(self).ctx.world.spec_alive(e),
            old(self).running && t == Trans::Quit ==> forall|i: int, e: Entity|
                0 <= i < old(self).states@.len() && #[trigger] old(self).states@[i].owns(e)
                    ==> !final(self).ctx.world.spec_alive(e),
            forall|e: Entity|
                #[trigger] held(old(self).states@, e) && !held(final(self).states@, e)
                    ==> !final(self).ctx.world.spec_alive(e),
            forall|e: Entity|
                e.0 < old(self).ctx.world.records@.len() && !old(self).ctx.world.spec_alive(e)
                    ==> !#[trigger] final(self).ctx.world.spec_alive(e),
            final(self).ctx.world.records@.len() >= old(self).ctx.world.records@.len(),
    {
        if !self.running {
            return;
        }
        let ghost w_start = self.ctx.world;
        let ghost s_start = self.states@;
        match t {
            Trans::Stay => {},
            Trans::Pop => {
                self.stop_top();
                let len = self.states.len();
                if len > 0 {
                    let top = self.states[len - 1];
                    if let GameState::Pong(mut p) = top {
                        p.on_resume(&mut self.ctx);
                    }
                    assert(self.ids().last() == old(self).ids()[old(self).ids().len() - 2]);
                    assert(forall|k: int| 0 <= k < s_start.len() - 1 ==> self.states@[k] == s_start[k]);
                } else {
                    self.running = false;
                }
            },
            Trans::Push(id) => {
                let len = self.states.len();
                let top = self.states[len - 1];
                if let GameState::Pong(mut p) = top {
                    p.on_pause(&mut self.ctx);
                }
                self.start(id);
                assert(forall|k: int| 0 <= k < s_start.len() ==> self.states@[k] == s_start[k]);
                assert forall|e: Entity|
                    e.0 < w_start.records@.len() && !w_start.spec_alive(e)
                    implies !#[trigger] self.ctx.world.spec_alive(e) by {
                    assert(self.ctx.world.records@[e.0 as int].alive == w_start.records@[e.0 as int].alive);
                }
            },
            Trans::Switch(id) => {
                self.stop_top();
                let ghost stopped = self.ctx.world;
                let ghost kept = self.states@;
                self.start(id);
                self.running = true;
                assert forall|e: Entity|
                    e.0 < w_start.records@.len() && !w_start.spec_alive(e)
                    implies !#[trigger] self.ctx.world.spec_alive(e) by {
                    assert(!stopped.spec_alive(e));
                    assert(self.ctx.world.records@[e.0 as int].alive == stopped.records@[e.0 as int].alive);
                }
                assert forall|k: int| 0 <= k < s_start.len() - 1 implies self.states@[k] == s_start[k] by {
                    assert(self.states@.drop_last()[k] == kept[k]);
                }
                assert forall|e: Entity| #[trigger] old(self).states@.last().owns(e)
                    implies !self.ctx.world.spec_alive(e) by {
                    assert(old(self).ctx.world.is_root(e));
                    assert(e.0 < stopped.records@.len());
                }
            },
            Trans::Quit => {
                while self.states.len() > 0
                    invariant
                        self.roots_inv(),
                        self.ids() == old(self).ids().take(self.states@.len() as int),
                        self.states@ == old(self).states@.take(self.states@.len() as int),
                        self.ctx.world.records@.len() == old(self).ctx.world.records@.len(),
                        forall|e: Entity|
                            e.0 < old(self).ctx.world.records@.len() && !old(self).ctx.world.spec_alive(e)
                                ==> !#[trigger] self.ctx.world.spec_alive(e),
                        forall|i: int, e: Entity|
                            self.states@.len() <= i < old(self).states@.len()
                                && #[trigger] old(self).states@[i].owns(e)
                                ==> !self.ctx.world.spec_alive(e),
                        self.states@.len() <= old(self).states@.len(),
                        self.ctx.gameplay == old(self).ctx.gameplay,
                        self.ctx.deferred@ == old(self).ctx.deferred@,
                        self.ctx.load_progress == old(self).ctx.load_progress,
                    decreases self.states@.len(),
                {
                    let ghost k = self.states@.len();
                    let ghost prev = self.states@;
                    self.stop_top();
                    assert(prev.last() == old(self).states@[k - 1]);
                    assert(self.states@ =~= old(self).states@.take(self.states@.len() as int));
                    assert(old(self).ids().take(k as int).drop_last() =~= old(self).ids().take(
                        k - 1,
                    ));
                }
                self.running = false;
                assert(self.ids() =~= seq![]);
            },
        }
        proof {
            assert forall|e: Entity|
                #[trigger] held(s_start, e) && !held(self.states@, e)
                implies !self.ctx.world.spec_alive(e) by {
                let i = choose|i: int| 0 <= i < s_start.len() && #[trigger] s_start[i].owns(e);
                if t == Trans::Quit {
                } else if (t == Trans::Pop || t is Switch) && i == s_start.len() - 1 {
                    assert(s_start[i] == s_start.last());
                } else {
                    assert(self.states@[i] == s_start[i]);
                }
            }
        }
    }

    /// Hands `event` to the top state of a running stack and applies the
    /// transition it asks for.
    pub fn handle_event(&mut self, event: GameStateEvent)
        requires
            old(self).inv(),
        ensures
            final(self).inv(),
            final(self).ids() == if old(self).running {
                step_ids(
                    old(self).ids(),
                    old(self).states@.last().decision(&old(self).ctx, event),
                )
            } else {
                old(self).ids()
            },
            ({
                let t = old(self).states@.last().decision(&old(self).ctx, event);
                &&& final(self).ctx.gameplay == if old(self).running {
                    gameplay_after(old(self).ids(), old(self).ctx.gameplay, t)
                } else {
                    old(self).ctx.gameplay
                }
                &&& old(self).running && (t == Trans::Pop || t is Switch) ==> forall|e: Entity|
                    #[trigger] old(self).states@.last().owns(e) ==> !final(self).ctx.world.spec_alive(e)
                &&& old(self).running && t == Trans::Quit ==> forall|i: int, e: Entity|
                    0 <= i < old(self).states@.len() && #[trigger] old(self).states@[i].owns(e)
                        ==> !final(self).ctx.world.spec_alive(e)
            }),
    {
        if !self.running {
            return;
        }
        let len = self.states.len();
        let top = self.states[len - 1];
        let t = match top {
            GameState::Welcome(s) => s.handle_event(&self.ctx, event),
            GameState::MainMenu(s) => s.handle_event(event),
            GameState::Pong(s) => s.handle_event(event),
            GameState::PauseMenu(s) => s.handle_event(&mut self.ctx, event),
            GameState::Credits(s) => s.handle_event(event),
        };
        self.transition(t);
    }

    /// Applies the transitions queued during the event phase, in order, and
    /// empties the queue.
    pub fn apply_deferred(&mut self)
        requires
            old(self).inv(),
        ensures
            final(self).inv(),
            final(self).ids() == ids_after(old(self).ids(), old(self).ctx.deferred@),
            final(self).ctx.gameplay == gameplay_after_all(
                old(self).ids(),
                old(self).ctx.gameplay,
                old(self).ctx.deferred@,
            ),
            final(self).ctx.deferred@.len() == 0,
            forall|e: Entity|
                #[trigger] held(old(self).states@, e) && !held(final(self).states@, e)
                    ==> !final(self).ctx.world.spec_alive(e),
    {
        let mut queue: Vec<Trans> = Vec::new();
        std::mem::swap(&mut queue, &mut self.ctx.deferred);
        let mut i: usize = 0;
        while i < queue.len()
            invariant
                self.inv(),
                i <= queue@.len(),
                queue@ == old(self).ctx.deferred@,
                self.ctx.deferred@.len() == 0,
                self.ids() == ids_after(old(self).ids(), queue@.take(i as int)),
                self.ctx.gameplay == gameplay_after_all(
                    old(self).ids(),
                    old(self).ctx.gameplay,
                    queue@.take(i as int),
                ),
                old(self).inv(),
                self.ctx.world.records@.len() >= old(self).ctx.world.records@.len(),
                forall|e: Entity|
                    #[trigger] held(old(self).states@, e) && !held(self.states@, e)
                        ==> !self.ctx.world.spec_alive(e),
            decreases queue@.len() - i,
        {
            let ghost prev = *self;
            self.transition(queue[i]);
            assert forall|e: Entity|
                #[trigger] held(old(self).states@, e) && !held(self.states@, e)
                implies !self.ctx.world.spec_alive(e) by {
                if !held(prev.states@, e) {
                    let j = choose|j: int| 0 <= j < old(self).states@.len() && #[trigger] old(self).states@[j].owns(e);
                    assert(old(self).ctx.world.is_root(e));
                }
            }
            assert(queue@.take(i + 1).drop_last() =~= queue@.take(i as int));
            i = i + 1;
        }
        assert(queue@.take(queue@.len() as int) =~= queue@);
    }

    /// Runs the update of the top state of a running stack for a frame. Every
    /// state's update asks to stay, so the stack keeps its shape.
    pub fn update(&mut self, frame: FrameInput)
        requires
            old(self).inv(),
            frame.axes.wf(),
        ensures
            final(self).inv(),
            final(self).ids() == old(self).ids(),
            final(self).running == old(self).running,
            old(self).running ==> {
                &&& final(self).states@.drop_last() == old(self).states@.drop_last()
                &&& top_updated(
                    old(self).states@.last(),
                    old(self).ctx,
                    frame,
                    final(self).states@.last(),
                    final(self).ctx,
                )
            },
            !old(self).running ==> *final(self) == *old(self),
    {
        if !self.running {
            return;
        }
        let len = self.states.len();
        let top = self.states[len - 1];
        let ghost before = self.states@;
        let ghost w0 = self.ctx.world;
        match top {
            GameState::Welcome(_) => {},
            GameState::Credits(_) => {},
            GameState::MainMenu(s) => {
                let mut s = s;
                s.update(&self.ctx);
                self.states.set(len - 1, GameState::MainMenu(s));
            },
            GameState::PauseMenu(s) => {
                let mut s = s;
                s.update(&self.ctx);
                self.states.set(len - 1, GameState::PauseMenu(s));
            },
            GameState::Pong(s) => {
                let mut s = s;
                assert(s.root_entity is Some ==> top.owns(s.root_entity.unwrap()));
                s.update(&mut self.ctx, frame);
                self.states.set(len - 1, GameState::Pong(s));
            },
        }
        proof {
            assert(self.ids() =~= old(self).ids());
            assert forall|i: int, e: Entity|
                0 <= i < self.states@.len() && #[trigger] self.states@[i].owns(e)
                implies self.ctx.world.is_root(e) by {
                assert(before[i].owns(e));
                assert(w0.is_root(e));
            }
            assert forall|i: int, j: int, e: Entity|
                0 <= i < j < self.states@.len() && #[trigger] self.states@[i].owns(e)
                implies !#[trigger] self.states@[j].owns(e) by {
                assert(before[i].owns(e));
                assert(self.states@[j].owns(e) == before[j].owns(e));
            }
            assert(self.states@.drop_last() =~= old(self).states@.drop_last());
        }
    }

    /// A running game whose only state, of kind `initial`, has started.
    pub fn new(initial: StateId) -> (r: Self)
        ensures
            r.inv(),
            r.running,
            r.ids() == seq![initial],
            r.ctx.gameplay == if initial == StateId::Pong {
                GameplayState::Running
            } else {
                GameplayState::Paused
            },
    {
        let mut app = Application { states: Vec::new(), ctx: GameContext::new(), running: true };
        proof {
            assert(app.ids() =~= seq![]);
        }
        app.start(initial);
        assert(app.ids() =~= seq![initial]);
        app
    }
}

} // verus!
