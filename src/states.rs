//! What the game states share: the gameplay flag, the events they react to,
//! the transitions they ask for and the context they act on.
use vstd::prelude::*;

use crate::components::{ScoreBoard, SoundCue};
use crate::world::{Entity, World};

verus! {

/// Whether the gameplay systems run this frame.
#[derive(Debug, Clone, Copy, PartialEq, Eq, Structural)]
pub enum GameplayState {
    Running,
    Paused,
}

impl Default for GameplayState {
    fn default() -> (r: Self)
        ensures
            r == GameplayState::Paused,
    {
        GameplayState::Paused
    }
}

/// The keys the states react to; every other key is `Other`.
#[derive(Debug, Clone, Copy, PartialEq, Eq, Structural)]
pub enum Key {
    Escape,
    Other,
}

#[derive(Debug, Clone, Copy, PartialEq, Eq, Structural)]
pub enum MouseButton {
    Left,
    Right,
    Middle,
    Other,
}

/// Events of the window.
#[derive(Debug, Clone, Copy, PartialEq, Eq, Structural)]
pub enum WindowEvent {
    CloseRequested,
    KeyPressed(Key),
    MouseButtonPressed(MouseButton),
    Other,
}

#[derive(Debug, Clone, Copy, PartialEq, Eq, Structural)]
pub enum UiEventType {
    Click,
    ClickStart,
    ClickStop,
    HoverStart,
    HoverStop,
    ValueChange,
}

/// An interaction with a user interface element.
#[derive(Debug, Clone, Copy, PartialEq, Eq, Structural)]
pub struct UiEvent {
    pub event_type: UiEventType,
    pub target: Entity,
}

/// Events of the input bindings.
#[derive(Debug, Clone, Copy, PartialEq, Eq, Structural)]
pub enum InputEvent {
    CursorMoved { delta_x: i64, delta_y: i64 },
    ActionPressed,
    ActionReleased,
}

/// Everything a state's event handler can receive.
#[derive(Debug, Clone, Copy, PartialEq, Eq, Structural)]
pub enum GameStateEvent {
    Window(WindowEvent),
    Ui(UiEvent),
    Input(InputEvent),
}

impl GameStateEvent {
    pub open spec fn is_close(self) -> bool {
        self == GameStateEvent::Window(WindowEvent::CloseRequested)
    }

    pub open spec fn is_escape(self) -> bool {
        self == GameStateEvent::Window(WindowEvent::KeyPressed(Key::Escape))
    }

    pub open spec fn is_left_click(self) -> bool {
        self == GameStateEvent::Window(WindowEvent::MouseButtonPressed(MouseButton::Left))
    }

    /// A press of any mouse button.
    pub open spec fn is_click(self) -> bool {
        self matches GameStateEvent::Window(WindowEvent::MouseButtonPressed(_))
    }

    /// A click on `button`, which must be known.
    pub open spec fn clicks(self, button: Option<Entity>) -> bool {
        button is Some && self == GameStateEvent::Ui(
            UiEvent { event_type: UiEventType::Click, target: button.unwrap() },
        )
    }
}

/// The states of the game.
#[derive(Debug, Clone, Copy, PartialEq, Eq, Structural)]
pub enum StateId {
    Welcome,
    MainMenu,
    Pong,
    PauseMenu,
    Credits,
}

/// What a state asks of the state stack: to stay as it is, to pop the top
/// state, to push or switch to a state, which starts fresh, or to quit.
#[derive(Debug, Clone, Copy, PartialEq, Eq, Structural)]
pub enum Trans {
    Stay,
    Pop,
    Push(StateId),
    Switch(StateId),
    Quit,
}

/// How far the loading of the assets that a screen waits for has got.
#[derive(Debug, Clone, Copy, PartialEq, Eq, Structural)]
pub enum Completion {
    Loading,
    Complete,
    Failed,
}

/// What the states act on: the entities, the shared resources, the sounds
/// the frame asks for and the transitions queued for after the event phase.
pub struct GameContext {
    pub world: World,
    pub gameplay: GameplayState,
    pub score_board: ScoreBoard,
    pub sounds: Vec<SoundCue>,
    pub deferred: Vec<Trans>,
    pub load_progress: Completion,
}

impl GameContext {
    pub open spec fn wf(&self) -> bool {
        self.world.wf() && self.score_board.wf()
    }

    /// The same shared resources, sounds, queued transitions and loading status.
    pub open spec fn same_resources(&self, other: &GameContext) -> bool {
        &&& self.gameplay == other.gameplay
        &&& self.score_board == other.score_board
        &&& self.sounds@ == other.sounds@
        &&& self.deferred@ == other.deferred@
        &&& self.load_progress == other.load_progress
    }

    /// An empty world, a paused game, a fresh score board and finished loading.
    pub fn new() -> (r: Self)
        ensures
            r.wf(),
            r.world.records@.len() == 0,
            r.gameplay == GameplayState::Paused,
            r.score_board.left() == 0,
            r.score_board.right() == 0,
            r.sounds@.len() == 0,
            r.deferred@.len() == 0,
            r.load_progress == Completion::Complete,
    {
        GameContext {
            world: World::new(),
            gameplay: GameplayState::Paused,
            score_board: ScoreBoard::new(),
            sounds: Vec::new(),
            deferred: Vec::new(),
            load_progress: Completion::Complete,
        }
    }
}

} // verus!
