//! The credits screen: shows its interface until escape or a click.
use vstd::prelude::*;

use crate::states::{GameContext, GameStateEvent, Key, StateId, Trans, WindowEvent};
use crate::ui::{create_ui, Prefab};
use crate::world::{delete_hierarchy, deleted, Entity, EntityRecord};

verus! {

#[derive(Debug, Clone, Copy, PartialEq, Eq, Structural, Default)]
pub struct CreditsScreen {
    pub ui_handle: Option<Entity>,
}

impl CreditsScreen {
    /// Shows the credits interface.
    pub fn on_start(&mut self, ctx: &mut GameContext)
        requires
            old(ctx).wf(),
        ensures
            final(ctx).wf(),
            final(ctx).same_resources(old(ctx)),
            final(ctx).world.keeps(&old(ctx).world),
            final(self).ui_handle == Some(old(ctx).world.next_entity()),
            final(ctx).world.is_root(old(ctx).world.next_entity()),
            final(ctx).world.records@ == old(ctx).world.records@.push(EntityRecord::bare(None)),
            final(ctx).world.texts@ == old(ctx).world.texts@.push(None),
    {
        self.ui_handle = Some(create_ui(&mut ctx.world, Prefab::Credits));
        assert(ctx.world.records@ =~= old(ctx).world.records@.push(EntityRecord::bare(None)));
        assert(ctx.world.texts@ =~= old(ctx).world.texts@.push(None));
    }

    /// Deletes the interface, its root and everything beneath it.
    pub fn on_stop(&mut self, ctx: &mut GameContext)
        requires
            old(ctx).wf(),
            old(ctx).world.alive_if_held(old(self).ui_handle),
        ensures
            final(ctx).wf(),
            final(ctx).same_resources(old(ctx)),
            final(ctx).world.texts@ == old(ctx).world.texts@,
            final(self).ui_handle is None,
            final(ctx).world.records@ == (match old(self).ui_handle {
                Some(h) => deleted(old(ctx).world.records@, h.0 as nat),
                None => old(ctx).world.records@,
            }),
    {
        if let Some(handle) = self.ui_handle {
            let _ = delete_hierarchy(handle, &mut ctx.world);
        }
        self.ui_handle = None;
    }

    /// Quits on a close request; goes back to the main menu on escape or a
    /// click of any mouse button.
    pub fn handle_event(&self, event: GameStateEvent) -> (r: Trans)
        ensures
            r == if event.is_close() {
                Trans::Quit
            } else if event.is_escape() || event.is_click() {
                Trans::Switch(StateId::MainMenu)
            } else {
                Trans::Stay
            },
    {
        match event {
            GameStateEvent::Window(WindowEvent::CloseRequested) => Trans::Quit,
            GameStateEvent::Window(WindowEvent::KeyPressed(Key::Escape)) => Trans::Switch(
                StateId::MainMenu,
            ),
            GameStateEvent::Window(WindowEvent::MouseButtonPressed(_)) => Trans::Switch(
                StateId::MainMenu,
            ),
            _ => Trans::Stay,
        }
    }

    pub fn update(&self) -> (r: Trans)
        ensures
            r == Trans::Stay,
    {
        Trans::Stay
    }
}

} // verus!
