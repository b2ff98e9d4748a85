//! The welcome screen: the first state, left with a click once loading is done.
use vstd::prelude::*;

use crate::states::{
    Completion, GameContext, GameStateEvent, GameplayState, Key, MouseButton, StateId, Trans,
    WindowEvent,
};
use crate::ui::{create_ui, Prefab};
use crate::world::{delete_hierarchy, deleted, Entity, EntityRecord};

verus! {

#[derive(Debug, Clone, Copy, PartialEq, Eq, Structural, Default)]
pub struct WelcomeScreen {
    pub ui_handle: Option<Entity>,
}

impl WelcomeScreen {
    /// Pauses gameplay and shows the welcome interface.
    pub fn on_start(&mut self, ctx: &mut GameContext)
        requires
            old(ctx).wf(),
        ensures
            final(ctx).wf(),
            final(ctx).gameplay == GameplayState::Paused,
            final(ctx).score_board == old(ctx).score_board,
            final(ctx).sounds@ == old(ctx).sounds@,
            final(ctx).deferred@ == old(ctx).deferred@,
            final(ctx).load_progress == old(ctx).load_progress,
            final(ctx).world.keeps(&old(ctx).world),
            final(self).ui_handle == Some(old(ctx).world.next_entity()),
            final(ctx).world.is_root(old(ctx).world.next_entity()),
            final(ctx).world.records@ == old(ctx).world.records@.push(EntityRecord::bare(None)),
            final(ctx).world.texts@ == old(ctx).world.texts@.push(None),
    {
        ctx.gameplay = GameplayState::Paused;
        self.ui_handle = Some(create_ui(&mut ctx.world, Prefab::Welcome));
        assert(ctx.world.records@ =~= old(ctx).world.records@.push(EntityRecord::bare(None)));
        assert(ctx.world.texts@ =~= old(ctx).world.texts@.push(None));
    }

    /// Deletes the interface, its root and everything beneath it.
    pub fn on_stop(&mut self, ctx: &mut GameContext)
        requires
            old(ctx).wf(),
            old(ctx).world.alive_if_held(old(self).ui_handle),
        ensures
            final(ctx).wf(),
            final(ctx).same_resources(old(ctx)),
            final(ctx).world.texts@ == old(ctx).world.texts@,
            final(self).ui_handle is None,
            final(ctx).world.records@ == (match old(self).ui_handle {
                Some(h) => deleted(old(ctx).world.records@, h.0 as nat),
                None => old(ctx).world.records@,
            }),
    {
        if let Some(handle) = self.ui_handle {
            let _ = delete_hierarchy(handle, &mut ctx.world);
        }
        self.ui_handle = None;
    }

    /// Quits on a close request or escape; moves on to the main menu on a left
    /// click, unless the assets are still loading.
    pub fn handle_event(&self, ctx: &GameContext, event: GameStateEvent) -> (r: Trans)
        ensures
            r == if event.is_close() || event.is_escape() {
                Trans::Quit
            } else if event.is_left_click() && ctx.load_progress != Completion::Loading {
                Trans::Switch(StateId::MainMenu)
            } else {
                Trans::Stay
            },
    {
        match event {
            GameStateEvent::Window(WindowEvent::CloseRequested) => Trans::Quit,
            GameStateEvent::Window(WindowEvent::KeyPressed(Key::Escape)) => Trans::Quit,
            GameStateEvent::Window(WindowEvent::MouseButtonPressed(MouseButton::Left)) => {
                match ctx.load_progress {
                    Completion::Loading => Trans::Stay,
                    _ => Trans::Switch(StateId::MainMenu),
                }
            },
            _ => Trans::Stay,
        }
    }

    pub fn update(&self) -> (r: Trans)
        ensures
            r == Trans::Stay,
    {
        Trans::Stay
    }
}

} // verus!
