//! The main menu: start, load, options and credits buttons.
use vstd::prelude::*;

use crate::states::{GameContext, GameStateEvent, Key, StateId, Trans, UiEvent, UiEventType, WindowEvent};
use crate::ui::{create_ui, prefab_widgets, widget_record, Prefab};
use crate::world::{delete_hierarchy, deleted, Entity, EntityRecord, UiId, World};

verus! {

#[derive(Debug, Clone, Copy, PartialEq, Eq, Structural, Default)]
pub struct MainMenu {
    pub ui_root: Option<Entity>,
    pub button_start: Option<Entity>,
    pub button_load: Option<Entity>,
    pub button_options: Option<Entity>,
    pub button_credits: Option<Entity>,
}

/// What a lookup of `id` finds: the first live entity with that name.
pub open spec fn found(world: &World, id: UiId, r: Option<Entity>) -> bool {
    match r {
        Some(e) => {
            &&& world.spec_alive(e)
            &&& world.records@[e.0 as int].ui_id == Some(id)
            &&& forall|j: int|
                0 <= j < e.0 ==> !(#[trigger] world.records@[j].alive && world.records@[j].ui_id
                    == Some(id))
        },
        None => forall|j: int|
            0 <= j < world.records@.len() ==> !(#[trigger] world.records@[j].alive
                && world.records@[j].ui_id == Some(id)),
    }
}

impl MainMenu {
    /// Shows the menu interface.
    pub fn on_start(&mut self, ctx: &mut GameContext)
        requires
            old(ctx).wf(),
        ensures
            final(ctx).wf(),
            final(ctx).same_resources(old(ctx)),
            final(ctx).world.keeps(&old(ctx).world),
            final(self).ui_root == Some(old(ctx).world.next_entity()),
            final(self).button_start == old(self).button_start,
            final(self).button_load == old(self).button_load,
            final(self).button_options == old(self).button_options,
            final(self).button_credits == old(self).button_credits,
            final(ctx).world.is_root(old(ctx).world.next_entity()),
            final(ctx).world.records@ == old(ctx).world.records@.push(EntityRecord::bare(None))
                + prefab_widgets(Prefab::Menu).map_values(
                |id: UiId| widget_record(old(ctx).world.next_entity(), id),
            ),
            final(ctx).world.texts@ == old(ctx).world.texts@ + Seq::new(5, |i: int| None::<String>),
    {
        self.ui_root = Some(create_ui(&mut ctx.world, Prefab::Menu));
    }

    /// Deletes the interface, its root and everything beneath it, and forgets
    /// the buttons.
    pub fn on_stop(&mut self, ctx: &mut GameContext)
        requires
            old(ctx).wf(),
            old(ctx).world.alive_if_held(old(self).ui_root),
        ensures
            final(ctx).wf(),
            final(ctx).same_resources(old(ctx)),
            final(ctx).world.texts@ == old(ctx).world.texts@,
            *final(self) == (MainMenu {
                ui_root: None,
                button_start: None,
                button_load: None,
                button_options: None,
                button_credits: None,
            }),
            final(ctx).world.records@ == (match old(self).ui_root {
                Some(h) => deleted(old(ctx).world.records@, h.0 as nat),
                None => old(ctx).world.records@,
            }),
    {
        if let Some(root) = self.ui_root {
            let _ = delete_hierarchy(root, &mut ctx.world);
        }
        self.ui_root = None;
        self.button_start = None;
        self.button_load = None;
        self.button_options = None;
        self.button_credits = None;
    }

    /// Quits on a close request and goes back to the welcome screen on escape.
    /// A click on the credits button opens the credits, one on the start button
    /// starts a match; the load and options buttons do nothing yet.
    pub fn handle_event(&self, event: GameStateEvent) -> (r: Trans)
        ensures
            r == if event.is_close() {
                Trans::Quit
            } else if event.is_escape() {
                Trans::Switch(StateId::Welcome)
            } else if event.clicks(self.button_credits) {
                Trans::Switch(StateId::Credits)
            } else if event.clicks(self.button_start) {
                Trans::Switch(StateId::Pong)
            } else {
                Trans::Stay
            },
    {
        match event {
            GameStateEvent::Window(WindowEvent::CloseRequested) => Trans::Quit,
            GameStateEvent::Window(WindowEvent::KeyPressed(Key::Escape)) => Trans::Switch(
                StateId::Welcome,
            ),
            GameStateEvent::Ui(UiEvent { event_type: UiEventType::Click, target }) => {
                if Some(target) == self.button_credits {
                    Trans::Switch(StateId::Credits)
                } else if Some(target) == self.button_start {
                    Trans::Switch(StateId::Pong)
                } else {
                    Trans::Stay
                }
            },
            _ => Trans::Stay,
        }
    }

    /// The buttons after a lookup on `world`: kept once all four are known,
    /// otherwise each of them looked up anew.
    pub open spec fn looked_up(self, world: &World, after: MainMenu) -> bool {
        &&& after.ui_root == self.ui_root
        &&& self.button_start is Some && self.button_load is Some && self.button_options is Some
            && self.button_credits is Some ==> after == self
        &&& !(self.button_start is Some && self.button_load is Some && self.button_options is Some
            && self.button_credits is Some) ==> {
            &&& found(world, UiId::Start, after.button_start)
            &&& found(world, UiId::Load, after.button_load)
            &&& found(world, UiId::Options, after.button_options)
            &&& found(world, UiId::Credits, after.button_credits)
        }
    }

    /// Looks the four buttons up while any of them is still unknown.
    pub fn update(&mut self, ctx: &GameContext) -> (r: Trans)
        ensures
            r == Trans::Stay,
            old(self).looked_up(&ctx.world, *final(self)),
    {
        if self.button_start.is_none() || self.button_load.is_none() || self.button_options.is_none()
            || self.button_credits.is_none() {
            self.button_start = ctx.world.find(UiId::Start);
            self.button_load = ctx.world.find(UiId::Load);
            self.button_options = ctx.world.find(UiId::Options);
            self.button_credits = ctx.world.find(UiId::Credits);
        }
        Trans::Stay
    }
}

} // verus!
