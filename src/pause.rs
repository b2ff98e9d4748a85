//! The pause menu, pushed over a match: resume, back to the main menu, or exit.
use vstd::prelude::*;

use crate::states::{GameContext, GameStateEvent, Key, StateId, Trans, UiEvent, UiEventType, WindowEvent};
use crate::ui::{create_ui, prefab_widgets, widget_record, Prefab};
use crate::world::{delete_hierarchy, deleted, Entity, EntityRecord, UiId, World};
use crate::menu::found;

verus! {

#[derive(Debug, Clone, Copy, PartialEq, Eq, Structural, Default)]
pub struct PauseMenuState {
    /// Goes back to the match.
    pub resume_button: Option<Entity>,
    /// Goes back to the main menu.
    pub exit_to_main_menu_button: Option<Entity>,
    /// Closes the game.
    pub exit_button: Option<Entity>,
    /// Root of the interface.
    pub root: Option<Entity>,
}

impl PauseMenuState {
    /// Shows the pause interface.
    pub fn on_start(&mut self, ctx: &mut GameContext)
        requires
            old(ctx).wf(),
        ensures
            final(ctx).wf(),
            final(ctx).same_resources(old(ctx)),
            final(ctx).world.keeps(&old(ctx).world),
            final(self).root == Some(old(ctx).world.next_entity()),
            final(self).resume_button == old(self).resume_button,
            final(self).exit_to_main_menu_button == old(self).exit_to_main_menu_button,
            final(self).exit_button == old(self).exit_button,
            final(ctx).world.is_root(old(ctx).world.next_entity()),
            final(ctx).world.records@ == old(ctx).world.records@.push(EntityRecord::bare(None))
                + prefab_widgets(Prefab::PauseMenu).map_values(
                |id: UiId| widget_record(old(ctx).world.next_entity(), id),
            ),
            final(ctx).world.texts@ == old(ctx).world.texts@ + Seq::new(4, |i: int| None::<String>),
    {
        self.root = Some(create_ui(&mut ctx.world, Prefab::PauseMenu));
    }

    /// Deletes the interface, its root and everything beneath it, and forgets
    /// the buttons.
    pub fn on_stop(&mut self, ctx: &mut GameContext)
        requires
            old(ctx).wf(),
            old(ctx).world.alive_if_held(old(self).root),
        ensures
            final(ctx).wf(),
            final(ctx).same_resources(old(ctx)),
            final(ctx).world.texts@ == old(ctx).world.texts@,
            *final(self) == (PauseMenuState {
                resume_button: None,
                exit_to_main_menu_button: None,
                exit_button: None,
                root: None,
            }),
            final(ctx).world.records@ == (match old(self).root {
                Some(h) => deleted(old(ctx).world.records@, h.0 as nat),
                None => old(ctx).world.records@,
            }),
    {
        if let Some(root) = self.root {
            let _ = delete_hierarchy(root, &mut ctx.world);
        }
        self.root = None;
        self.resume_button = None;
        self.exit_to_main_menu_button = None;
        self.exit_button = None;
    }

    /// Quits on a close request or a click on exit; pops itself on escape or a
    /// click on resume. A click on the main menu button queues two transitions
    /// for after the event phase: a pop back to the match, then a switch from
    /// it to the main menu.
    pub fn handle_event(&self, ctx: &mut GameContext, event: GameStateEvent) -> (r: Trans)
        ensures
            final(ctx).world == old(ctx).world,
            final(ctx).gameplay == old(ctx).gameplay,
            final(ctx).score_board == old(ctx).score_board,
            final(ctx).sounds@ == old(ctx).sounds@,
            final(ctx).load_progress == old(ctx).load_progress,
            r == if event.is_close() {
                Trans::Quit
            } else if event.is_escape() {
                Trans::Pop
            } else if event.clicks(self.resume_button) {
                Trans::Pop
            } else if event.clicks(self.exit_to_main_menu_button) {
                Trans::Stay
            } else if event.clicks(self.exit_button) {
                Trans::Quit
            } else {
                Trans::Stay
            },
            final(ctx).deferred@ == if !event.is_close() && !event.is_escape() && !event.clicks(
                self.resume_button,
            ) && event.clicks(self.exit_to_main_menu_button) {
                old(ctx).deferred@.push(Trans::Pop).push(Trans::Switch(StateId::MainMenu))
            } else {
                old(ctx).deferred@
            },
    {
        match event {
            GameStateEvent::Window(WindowEvent::CloseRequested) => Trans::Quit,
            GameStateEvent::Window(WindowEvent::KeyPressed(Key::Escape)) => Trans::Pop,
            GameStateEvent::Ui(UiEvent { event_type: UiEventType::Click, target }) => {
                if Some(target) == self.resume_button {
                    Trans::Pop
                } else if Some(target) == self.exit_to_main_menu_button {
                    ctx.deferred.push(Trans::Pop);
                    ctx.deferred.push(Trans::Switch(StateId::MainMenu));
                    Trans::Stay
                } else if Some(target) == self.exit_button {
                    Trans::Quit
                } else {
                    Trans::Stay
                }
            },
            _ => Trans::Stay,
        }
    }

    /// The buttons after a lookup on `world`: kept once all three are known,
    /// otherwise each of them looked up anew.
    pub open spec fn looked_up(self, world: &World, after: PauseMenuState) -> bool {
        &&& after.root == self.root
        &&& self.resume_button is Some && self.exit_to_main_menu_button is Some
            && self.exit_button is Some ==> after == self
        &&& !(self.resume_button is Some && self.exit_to_main_menu_button is Some
            && self.exit_button is Some) ==> {
            &&& found(world, UiId::Resume, after.resume_button)
            &&& found(world, UiId::ExitToMainMenu, after.exit_to_main_menu_button)
            &&& found(world, UiId::Exit, after.exit_button)
        }
    }

    /// Looks the three buttons up while any of them is still unknown.
    pub fn update(&mut self, ctx: &GameContext) -> (r: Trans)
        ensures
            r == Trans::Stay,
            old(self).looked_up(&ctx.world, *final(self)),
    {
        if self.resume_button.is_none() || self.exit_to_main_menu_button.is_none()
            || self.exit_button.is_none() {
            self.resume_button = ctx.world.find(UiId::Resume);
            self.exit_to_main_menu_button = ctx.world.find(UiId::ExitToMainMenu);
            self.exit_button = ctx.world.find(UiId::Exit);
        }
        Trans::Stay
    }
}

} // verus!
