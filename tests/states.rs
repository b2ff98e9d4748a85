use pong::bundle::FrameInput;
use pong::machine::{Application, GameState};
use pong::paddle::PaddleAxes;
use pong::states::{
    Completion, GameStateEvent, GameplayState, InputEvent, Key, MouseButton, StateId, Trans,
    UiEvent, UiEventType, WindowEvent,
};
use pong::world::{Entity, UiId};

fn frame(delta: u32) -> FrameInput {
    FrameInput { delta, axes: PaddleAxes { left: Some(0), right: Some(0) }, centi_fps: 14400 }
}

fn close() -> GameStateEvent {
    GameStateEvent::Window(WindowEvent::CloseRequested)
}

fn escape() -> GameStateEvent {
    GameStateEvent::Window(WindowEvent::KeyPressed(Key::Escape))
}

fn left_click() -> GameStateEvent {
    GameStateEvent::Window(WindowEvent::MouseButtonPressed(MouseButton::Left))
}

fn click(target: Entity) -> GameStateEvent {
    GameStateEvent::Ui(UiEvent { event_type: UiEventType::Click, target })
}

fn value_change(app: &mut Application) -> GameStateEvent {
    let target = app.ctx.world.create_entity(pong::world::EntityRecord::new(None), None);
    GameStateEvent::Ui(UiEvent { event_type: UiEventType::ValueChange, target })
}

/// Runs frames of 10 ms until `seconds` have passed.
fn wait(app: &mut Application, seconds: u32) {
    for _ in 0..(seconds * 100) {
        app.update(frame(10_000));
    }
}

fn top(app: &Application) -> StateId {
    match app.states.last().expect("a running game has a state") {
        GameState::Welcome(_) => StateId::Welcome,
        GameState::MainMenu(_) => StateId::MainMenu,
        GameState::Pong(_) => StateId::Pong,
        GameState::PauseMenu(_) => StateId::PauseMenu,
        GameState::Credits(_) => StateId::Credits,
    }
}

fn live_root(app: &Application, root: Option<Entity>) -> bool {
    root.map_or(false, |r| app.ctx.world.is_alive(r))
}

#[test]
fn test_default_gameplay_state() {
    assert_eq!(GameplayState::default(), GameplayState::Paused);
}

#[test]
fn test_credits_state() {
    let mut app = Application::new(StateId::Credits);
    wait(&mut app, 1);
    assert!(app.running);
    assert_eq!(top(&app), StateId::Credits);
    app.transition(Trans::Quit);
    assert!(!app.running);
    assert!(app.states.is_empty());
}

#[test]
fn credits_is_close_requested() {
    let mut app = Application::new(StateId::Credits);
    app.handle_event(close());
    assert!(!app.running);
}

#[test]
fn credits_escape_key() {
    let mut app = Application::new(StateId::Credits);
    app.handle_event(escape());
    assert!(app.running);
    assert_eq!(top(&app), StateId::MainMenu);
    assert_eq!(app.states.len(), 1);
}

#[test]
fn credits_unhandled_window_event() {
    let mut app = Application::new(StateId::Credits);
    app.handle_event(GameStateEvent::Window(WindowEvent::Other));
    assert!(app.running);
    assert_eq!(top(&app), StateId::Credits);
}

#[test]
fn credits_unhandled_ui_event() {
    let mut app = Application::new(StateId::Credits);
    let event = value_change(&mut app);
    app.handle_event(event);
    assert!(app.running);
    assert_eq!(top(&app), StateId::Credits);
}

#[test]
fn credits_left_click_returns_to_menu() {
    let mut app = Application::new(StateId::Credits);
    app.handle_event(left_click());
    assert_eq!(top(&app), StateId::MainMenu);
}

#[test]
fn credits_any_click_returns_to_menu() {
    for button in [MouseButton::Right, MouseButton::Middle, MouseButton::Other] {
        let mut app = Application::new(StateId::Credits);
        app.handle_event(GameStateEvent::Window(WindowEvent::MouseButtonPressed(button)));
        assert_eq!(top(&app), StateId::MainMenu);
        assert_eq!(app.states.len(), 1);
    }
}

#[test]
fn credits_stop_releases_interface() {
    let mut app = Application::new(StateId::Credits);
    let root = match app.states[0] {
        GameState::Credits(s) => s.ui_handle,
        _ => panic!("credits expected"),
    };
    assert!(live_root(&app, root));
    app.handle_event(escape());
    assert!(!live_root(&app, root));
}

#[test]
fn test_main_menu_state() {
    let mut app = Application::new(StateId::MainMenu);
    wait(&mut app, 1);
    assert!(app.running);
    assert_eq!(top(&app), StateId::MainMenu);
    match app.states[0] {
        GameState::MainMenu(m) => {
            assert!(m.button_start.is_some());
            assert!(m.button_load.is_some());
            assert!(m.button_options.is_some());
            assert!(m.button_credits.is_some());
        }
        _ => panic!("main menu expected"),
    }
}

fn menu_button(app: &mut Application, id: UiId) -> Entity {
    app.update(frame(10_000));
    app.ctx.world.find(id).expect("the menu shows its buttons")
}

#[test]
fn click_start_button() {
    let mut app = Application::new(StateId::MainMenu);
    let button = menu_button(&mut app, UiId::Start);
    app.handle_event(click(button));
    wait(&mut app, 1);
    assert_eq!(top(&app), StateId::Pong);
    assert_eq!(app.ctx.gameplay, GameplayState::Running);
}

#[test]
fn click_load_button() {
    let mut app = Application::new(StateId::MainMenu);
    let button = menu_button(&mut app, UiId::Load);
    app.handle_event(click(button));
    wait(&mut app, 1);
    assert_eq!(top(&app), StateId::MainMenu);
}

#[test]
fn click_options_button() {
    let mut app = Application::new(StateId::MainMenu);
    let button = menu_button(&mut app, UiId::Options);
    app.handle_event(click(button));
    wait(&mut app, 1);
    assert_eq!(top(&app), StateId::MainMenu);
}

#[test]
fn click_credits_button() {
    let mut app = Application::new(StateId::MainMenu);
    let button = menu_button(&mut app, UiId::Credits);
    app.handle_event(click(button));
    wait(&mut app, 1);
    assert_eq!(top(&app), StateId::Credits);
}

#[test]
fn menu_is_close_requested() {
    let mut app = Application::new(StateId::MainMenu);
    app.handle_event(close());
    assert!(!app.running);
}

#[test]
fn menu_escape_key() {
    let mut app = Application::new(StateId::MainMenu);
    app.handle_event(escape());
    assert_eq!(top(&app), StateId::Welcome);
    assert_eq!(app.ctx.gameplay, GameplayState::Paused);
}

#[test]
fn menu_unhandled_window_event() {
    let mut app = Application::new(StateId::MainMenu);
    app.handle_event(GameStateEvent::Window(WindowEvent::Other));
    assert_eq!(top(&app), StateId::MainMenu);
}

#[test]
fn menu_unhandled_ui_event() {
    let mut app = Application::new(StateId::MainMenu);
    let event = value_change(&mut app);
    app.handle_event(event);
    assert_eq!(top(&app), StateId::MainMenu);
}

#[test]
fn menu_stop_releases_interface() {
    let mut app = Application::new(StateId::MainMenu);
    let start = menu_button(&mut app, UiId::Start);
    let root = match app.states[0] {
        GameState::MainMenu(m) => m.ui_root,
        _ => panic!("main menu expected"),
    };
    assert!(live_root(&app, root));
    app.handle_event(escape());
    assert!(!live_root(&app, root));
    assert!(!app.ctx.world.is_alive(start));
    assert_eq!(app.ctx.world.find(UiId::Start), None);
    assert_eq!(app.ctx.world.find(UiId::Credits), None);
}

fn paused_match() -> Application {
    let mut app = Application::new(StateId::Pong);
    app.handle_event(escape());
    app.update(frame(10_000));
    app
}

#[test]
fn test_pause_menu_state() {
    let mut app = paused_match();
    wait(&mut app, 1);
    assert_eq!(app.states.len(), 2);
    assert_eq!(top(&app), StateId::PauseMenu);
    assert_eq!(app.ctx.gameplay, GameplayState::Paused);
}

#[test]
fn click_exit_button() {
    let mut app = paused_match();
    let button = app.ctx.world.find(UiId::Exit).expect("Could not find exit button");
    app.handle_event(click(button));
    assert!(!app.running);
    assert!(app.states.is_empty());
}

#[test]
fn click_exit_to_main_menu_button() {
    let mut app = paused_match();
    let button =
        app.ctx.world.find(UiId::ExitToMainMenu).expect("Could not find exit to main menu button");
    app.handle_event(click(button));
    assert_eq!(app.states.len(), 2);
    assert_eq!(app.ctx.deferred, vec![Trans::Pop, Trans::Switch(StateId::MainMenu)]);
    app.apply_deferred();
    assert!(app.ctx.deferred.is_empty());
    assert_eq!(app.states.len(), 1);
    assert_eq!(top(&app), StateId::MainMenu);
    assert_eq!(app.ctx.world.find(UiId::Resume), None);
}

#[test]
fn click_resume_button() {
    let mut app = paused_match();
    let button = app.ctx.world.find(UiId::Resume).expect("Could not find resume button");
    app.handle_event(click(button));
    assert_eq!(app.states.len(), 1);
    assert_eq!(top(&app), StateId::Pong);
    assert_eq!(app.ctx.gameplay, GameplayState::Running);
}

#[test]
fn pause_is_close_requested() {
    let mut app = paused_match();
    app.handle_event(close());
    assert!(!app.running);
    assert!(app.states.is_empty());
}

#[test]
fn pause_escape_key() {
    let mut app = paused_match();
    app.handle_event(escape());
    assert_eq!(top(&app), StateId::Pong);
    assert_eq!(app.ctx.gameplay, GameplayState::Running);
}

#[test]
fn pause_unhandled_window_event() {
    let mut app = paused_match();
    app.handle_event(GameStateEvent::Window(WindowEvent::Other));
    assert!(app.running);
    assert_eq!(top(&app), StateId::PauseMenu);
}

#[test]
fn left_mouse_button() {
    let mut app = Application::new(StateId::Welcome);
    wait(&mut app, 1);
    app.handle_event(left_click());
    assert_eq!(top(&app), StateId::MainMenu);
}

#[test]
fn welcome_click_waits_for_loading() {
    let mut app = Application::new(StateId::Welcome);
    app.ctx.load_progress = Completion::Loading;
    app.handle_event(left_click());
    assert_eq!(top(&app), StateId::Welcome);
    app.ctx.load_progress = Completion::Failed;
    app.handle_event(left_click());
    assert_eq!(top(&app), StateId::MainMenu);
}

#[test]
fn welcome_unhandled_window_event() {
    let mut app = Application::new(StateId::Welcome);
    app.handle_event(GameStateEvent::Window(WindowEvent::Other));
    assert_eq!(top(&app), StateId::Welcome);
}

#[test]
fn welcome_escape_key() {
    let mut app = Application::new(StateId::Welcome);
    app.handle_event(escape());
    assert!(!app.running);
}

#[test]
fn window_event() {
    let mut app = Application::new(StateId::Welcome);
    app.handle_event(close());
    assert!(!app.running);
}

#[test]
fn welcome_unhandled_ui_event() {
    let mut app = Application::new(StateId::Welcome);
    let event = value_change(&mut app);
    app.handle_event(event);
    assert_eq!(top(&app), StateId::Welcome);
}

#[test]
fn unhandled_input_event() {
    let mut app = Application::new(StateId::Welcome);
    app.handle_event(GameStateEvent::Input(InputEvent::CursorMoved { delta_x: 0, delta_y: 0 }));
    assert_eq!(top(&app), StateId::Welcome);
    assert!(app.running);
}

#[test]
fn welcome_pauses_gameplay() {
    let app = Application::new(StateId::Welcome);
    assert_eq!(app.ctx.gameplay, GameplayState::Paused);
}

#[test]
fn test_pong_state() {
    let mut app = Application::new(StateId::Pong);
    assert_eq!(app.ctx.gameplay, GameplayState::Running);
    let pong = match app.states[0] {
        GameState::Pong(p) => p,
        _ => panic!("match expected"),
    };
    assert_eq!(pong.ball_spawn_timer, Some(1_000_000));
    assert!(pong.score_text.is_some());
    let paddles = app.ctx.world.records.iter().filter(|r| r.alive && r.paddle.is_some()).count();
    let cameras = app.ctx.world.records.iter().filter(|r| r.alive && r.camera).count();
    assert_eq!(paddles, 2);
    assert_eq!(cameras, 1);
    let balls = |app: &Application| app.ctx.world.records.iter().filter(|r| r.alive && r.ball.is_some()).count();
    app.update(frame(500_000));
    assert_eq!(balls(&app), 0);
    app.update(frame(500_000));
    assert_eq!(balls(&app), 1);
    match app.states[0] {
        GameState::Pong(p) => assert_eq!(p.ball_spawn_timer, None),
        _ => panic!("match expected"),
    }
}

#[test]
fn pong_spawn_timer_stops_while_paused() {
    let mut app = paused_match();
    let before = app.states[0];
    wait(&mut app, 2);
    assert_eq!(app.states[0], before);
    let balls = app.ctx.world.records.iter().filter(|r| r.alive && r.ball.is_some()).count();
    assert_eq!(balls, 0);
}

#[test]
fn pong_stop_deletes_scene_and_interface() {
    let mut app = Application::new(StateId::Pong);
    app.update(frame(1_000_000));
    app.transition(Trans::Switch(StateId::MainMenu));
    let leftovers = app
        .ctx
        .world
        .records
        .iter()
        .filter(|r| r.alive && (r.paddle.is_some() || r.ball.is_some() || r.camera))
        .count();
    assert_eq!(leftovers, 0);
    assert_eq!(top(&app), StateId::MainMenu);
}

#[test]
fn pause_unhandled_ui_event() {
    let mut app = paused_match();
    let event = value_change(&mut app);
    app.handle_event(event);
    assert_eq!(app.states.len(), 2);
    assert_eq!(top(&app), StateId::PauseMenu);
    assert!(app.ctx.deferred.is_empty());
}

#[test]
fn pause_stop_releases_interface() {
    let mut app = paused_match();
    let root = match app.states[1] {
        GameState::PauseMenu(p) => p.root,
        _ => panic!("pause menu expected"),
    };
    assert!(live_root(&app, root));
    app.handle_event(escape());
    assert!(!live_root(&app, root));
    assert_eq!(app.ctx.world.find(UiId::Exit), None);
}

#[test]
fn match_over_pause_keeps_its_scene() {
    let mut app = Application::new(StateId::Pong);
    app.update(frame(1_000_000));
    let ball = app.ctx.world.records.iter().position(|r| r.alive && r.ball.is_some()).unwrap();
    app.handle_event(escape());
    assert_eq!(app.states.len(), 2);
    assert!(app.ctx.world.records[ball].alive);
    let position = app.ctx.world.records[ball].transform;
    wait(&mut app, 1);
    assert_eq!(app.ctx.world.records[ball].transform, position);
    app.handle_event(escape());
    app.update(frame(100_000));
    assert_ne!(app.ctx.world.records[ball].transform, position);
}
