use pong::arena::{
    point_in_rect, ARENA_HEIGHT, ARENA_WIDTH, BALL_RADIUS, BALL_VELOCITY_X, BALL_VELOCITY_Y,
    PADDLE_HEIGHT, UNIT,
};
use pong::bounce::BounceSystem;
use pong::bundle::{FrameInput, PongBundle};
use pong::components::{ScoreBoard, Side, SoundCue};
use pong::move_balls::MoveBallsSystem;
use pong::paddle::{PaddleAxes, PaddleSystem};
use pong::pong::{initialise_ball, initialise_paddles, initialise_score};
use pong::states::GameplayState;
use pong::text::{decimal_string, fps_string};
use pong::ui::{create_ui, Prefab};
use pong::winner::{show_fps, ScoreText, WinnerSystem};
use pong::world::{delete_hierarchy, Entity, EntityRecord, Transform, World, WrongGeneration};

fn arena_with_paddles() -> (World, Entity) {
    let mut world = World::new();
    let mut rec = EntityRecord::new(None);
    rec.transform = Some(Transform { x: 0, y: 0 });
    let root = world.create_entity(rec, None);
    initialise_paddles(&mut world, root);
    (world, root)
}

fn hud(world: &mut World) -> ScoreText {
    let ui_root = create_ui(world, Prefab::Hud);
    initialise_score(world, ui_root)
}

fn ball_of(world: &World, e: Entity) -> ([i64; 2], Transform) {
    let rec = world.records[e.0];
    (rec.ball.unwrap().velocity, rec.transform.unwrap())
}

fn text_of(world: &World, e: Entity) -> String {
    world.text(e).expect("a display has a text")
}

#[test]
fn test_point_in_rect() {
    let cases: [(i128, i128, i128, i128, i128, i128, bool); 10] = [
        (0, 0, 0, 0, 0, 0, true),
        (0, 0, -1, -1, 1, 1, true),
        (1, 0, -1, -1, 1, 1, true),
        (0, 1, -1, -1, 1, 1, true),
        (-10, 0, -10, -10, 10, 10, true),
        (0, -10, -10, -10, 10, 10, true),
        (2, 0, -1, -1, 1, 1, false),
        (0, 2, -1, -1, 1, 1, false),
        (-20, 0, -10, -10, 10, 10, false),
        (0, -20, -10, -10, 10, 10, false),
    ];
    for (x, y, left, bottom, right, top, expected) in cases {
        assert_eq!(point_in_rect(x, y, left, bottom, right, top), expected);
    }
}

#[test]
fn basic_bounce_system_setup() {
    let (mut world, root) = arena_with_paddles();
    let ball = initialise_ball(&mut world, root, BALL_RADIUS, [BALL_VELOCITY_X, BALL_VELOCITY_Y], None);
    let mut sounds = Vec::new();
    BounceSystem.run(&mut world, &mut sounds);
    let (velocity, position) = ball_of(&world, ball);
    assert_eq!(velocity, [BALL_VELOCITY_X, BALL_VELOCITY_Y]);
    assert_eq!(position, Transform { x: ARENA_WIDTH / 2, y: ARENA_HEIGHT / 2 });
    assert!(sounds.is_empty());
}

#[test]
fn paddle_reflect() {
    let (mut world, root) = arena_with_paddles();
    let ball = initialise_ball(&mut world, root, BALL_RADIUS, [-1, BALL_VELOCITY_Y], Some([0, ARENA_HEIGHT / 2]));
    let mut sounds = Vec::new();
    BounceSystem.run(&mut world, &mut sounds);
    let balls = world.records.iter().filter(|r| r.ball.is_some()).count();
    assert_eq!(1, balls);
    assert_eq!(ball_of(&world, ball).0[0], 1);
    assert_eq!(sounds, vec![SoundCue::Bounce]);
}

#[test]
fn no_paddle_reflect_if_going_into_direction_of_paddle() {
    let (mut world, root) = arena_with_paddles();
    let ball = initialise_ball(&mut world, root, BALL_RADIUS, [1, BALL_VELOCITY_Y], Some([0, ARENA_HEIGHT / 2]));
    let mut sounds = Vec::new();
    BounceSystem.run(&mut world, &mut sounds);
    let balls = world.records.iter().filter(|r| r.ball.is_some()).count();
    assert_eq!(1, balls);
    assert_eq!(ball_of(&world, ball).0[0], 1);
    assert!(sounds.is_empty());
}

#[test]
fn reflection_happens_once_while_overlapping() {
    let (mut world, root) = arena_with_paddles();
    let ball = initialise_ball(&mut world, root, BALL_RADIUS, [-1, 0], Some([UNIT, ARENA_HEIGHT / 2]));
    let mut sounds = Vec::new();
    BounceSystem.run(&mut world, &mut sounds);
    BounceSystem.run(&mut world, &mut sounds);
    BounceSystem.run(&mut world, &mut sounds);
    assert_eq!(ball_of(&world, ball).0, [1, 0]);
    assert_eq!(sounds.len(), 1);
}

#[test]
fn right_paddle_reflects_ball_moving_right() {
    let (mut world, root) = arena_with_paddles();
    let ball = initialise_ball(&mut world, root, BALL_RADIUS, [30, 0], Some([ARENA_WIDTH - 3 * UNIT, ARENA_HEIGHT / 2]));
    let mut sounds = Vec::new();
    BounceSystem.run(&mut world, &mut sounds);
    assert_eq!(ball_of(&world, ball).0, [-30, 0]);
}

#[test]
fn paddle_hitbox_edges_are_inclusive() {
    // Left paddle spans x in [0, 4] and y in [37, 53] units; grown by the
    // radius of 2 units, its hitbox reaches y = 55 units.
    let (mut world, root) = arena_with_paddles();
    let inside = initialise_ball(&mut world, root, BALL_RADIUS, [-5, 0], Some([6 * UNIT, 55 * UNIT]));
    let outside = initialise_ball(&mut world, root, BALL_RADIUS, [-5, 0], Some([6 * UNIT, 55 * UNIT + 1]));
    let mut sounds = Vec::new();
    BounceSystem.run(&mut world, &mut sounds);
    assert_eq!(ball_of(&world, inside).0[0], 5);
    assert_eq!(ball_of(&world, outside).0[0], -5);
}

#[test]
fn wall_bounce_only_when_moving_into_wall() {
    let (mut world, root) = arena_with_paddles();
    let down = initialise_ball(&mut world, root, BALL_RADIUS, [0, -20], Some([80 * UNIT, BALL_RADIUS]));
    let up_away = initialise_ball(&mut world, root, BALL_RADIUS, [0, 20], Some([80 * UNIT, 0]));
    let top = initialise_ball(&mut world, root, BALL_RADIUS, [0, 20], Some([80 * UNIT, ARENA_HEIGHT - BALL_RADIUS]));
    let mut sounds = Vec::new();
    BounceSystem.run(&mut world, &mut sounds);
    assert_eq!(ball_of(&world, down).0, [0, 20]);
    assert_eq!(ball_of(&world, up_away).0, [0, 20]);
    assert_eq!(ball_of(&world, top).0, [0, -20]);
    assert_eq!(sounds, vec![SoundCue::Bounce, SoundCue::Bounce]);
}

#[test]
fn reset_ball_on_hitting_left_side() {
    let mut world = World::new();
    let mut board = ScoreBoard::new();
    let score_text = hud(&mut world);
    let root = world.create_entity(EntityRecord::new(None), None);
    let ball = initialise_ball(&mut world, root, BALL_RADIUS, [-10, 0], Some([0, 0]));
    let mut sounds = Vec::new();
    WinnerSystem.run(&mut world, &mut board, score_text, 14400, &mut sounds);
    let balls = world.records.iter().filter(|r| r.ball.is_some()).count();
    assert_eq!(1, balls);
    let (velocity, position) = ball_of(&world, ball);
    assert_eq!(velocity[0], 10);
    assert_eq!(position.x, ARENA_WIDTH / 2);
    assert_eq!(position.y, 0);
    assert_eq!(board.score_right(), 1);
    assert_eq!(board.score_left(), 0);
    assert_eq!(text_of(&world, score_text.p2_score), "1");
    assert_eq!(text_of(&world, score_text.p1_score), "0");
    assert_eq!(sounds, vec![SoundCue::Score]);
}

#[test]
fn reset_ball_on_hitting_right_side() {
    let mut world = World::new();
    let mut board = ScoreBoard::new();
    let score_text = hud(&mut world);
    let root = world.create_entity(EntityRecord::new(None), None);
    let ball = initialise_ball(&mut world, root, BALL_RADIUS, [10, 0], Some([ARENA_WIDTH, 0]));
    let mut sounds = Vec::new();
    WinnerSystem.run(&mut world, &mut board, score_text, 14400, &mut sounds);
    let balls = world.records.iter().filter(|r| r.ball.is_some()).count();
    assert_eq!(1, balls);
    let (velocity, position) = ball_of(&world, ball);
    assert_eq!(velocity[0], -10);
    assert_eq!(position.x, ARENA_WIDTH / 2);
    assert_eq!(board.score_left(), 1);
    assert_eq!(board.score_right(), 0);
    assert_eq!(text_of(&world, score_text.p1_score), "1");
    assert_eq!(text_of(&world, score_text.p2_score), "0");
}

#[test]
fn no_goal_in_midfield() {
    let mut world = World::new();
    let mut board = ScoreBoard::new();
    let score_text = hud(&mut world);
    let root = world.create_entity(EntityRecord::new(None), None);
    let ball = initialise_ball(&mut world, root, BALL_RADIUS, [10, 3], Some([BALL_RADIUS + 1, 7]));
    let mut sounds = Vec::new();
    WinnerSystem.run(&mut world, &mut board, score_text, 6000, &mut sounds);
    assert_eq!(ball_of(&world, ball), ([10, 3], Transform { x: BALL_RADIUS + 1, y: 7 }));
    assert_eq!(board.score_left(), 0);
    assert_eq!(board.score_right(), 0);
    assert_eq!(text_of(&world, score_text.fps_display), "FPS: 60.00");
    assert!(sounds.is_empty());
}

#[test]
fn score_saturates_at_999() {
    let mut board = ScoreBoard::new();
    for _ in 0..1005 {
        board.add_point(Side::Left);
    }
    assert_eq!(board.score_left(), 999);
    assert_eq!(board.score_right(), 0);
    assert_eq!(board.add_point(Side::Left), 999);
    assert_eq!(board.add_point(Side::Right), 1);
}

#[test]
fn winner_score_text_saturates() {
    let mut world = World::new();
    let mut board = ScoreBoard::new();
    for _ in 0..999 {
        board.add_point(Side::Right);
    }
    let score_text = hud(&mut world);
    let root = world.create_entity(EntityRecord::new(None), None);
    initialise_ball(&mut world, root, BALL_RADIUS, [-10, 0], Some([0, 0]));
    let mut sounds = Vec::new();
    WinnerSystem.run(&mut world, &mut board, score_text, 0, &mut sounds);
    assert_eq!(board.score_right(), 999);
    assert_eq!(text_of(&world, score_text.p2_score), "999");
}

#[test]
fn score_board_initialisation() {
    let scoreboard = ScoreBoard::new();
    assert_eq!(scoreboard.score_left(), 0);
    assert_eq!(scoreboard.score_right(), 0);
    assert_eq!(scoreboard.score_right(), scoreboard.score_left());
    assert_eq!(ScoreBoard::default(), scoreboard);
}

#[test]
fn test_delete_single_entity() {
    let mut world = World::new();
    let entity = world.create_entity(EntityRecord::new(None), None);
    assert!(world.is_alive(entity));
    let result = delete_hierarchy(entity, &mut world);
    assert!(result.is_ok());
    assert_eq!(world.is_alive(entity), false);
}

#[test]
fn test_delete_two_unrelated_entities() {
    let mut world = World::new();
    let entity1 = world.create_entity(EntityRecord::new(None), None);
    assert!(world.is_alive(entity1));
    let entity2 = world.create_entity(EntityRecord::new(None), None);
    assert!(world.is_alive(entity2));
    let result = delete_hierarchy(entity1, &mut world);
    assert!(result.is_ok());
    assert_eq!(world.is_alive(entity1), false);
    assert_eq!(world.is_alive(entity2), true);
}

#[test]
fn test_delete_two_related_entities_deleting_child() {
    let mut world = World::new();
    let parent = world.create_entity(EntityRecord::new(None), None);
    assert!(world.is_alive(parent));
    let child = world.create_entity(EntityRecord::new(Some(parent)), None);
    assert!(world.is_alive(child));
    let result = delete_hierarchy(child, &mut world);
    assert!(result.is_ok());
    assert_eq!(world.is_alive(parent), true);
    assert_eq!(world.is_alive(child), false);
}

#[test]
fn delete_hierarchy_reaches_grandchildren_only() {
    let mut world = World::new();
    let root = world.create_entity(EntityRecord::new(None), None);
    let other = world.create_entity(EntityRecord::new(None), None);
    let child = world.create_entity(EntityRecord::new(Some(root)), None);
    let cousin = world.create_entity(EntityRecord::new(Some(other)), None);
    let grandchild = world.create_entity(EntityRecord::new(Some(child)), None);
    assert_eq!(delete_hierarchy(root, &mut world), Ok(()));
    assert!(!world.is_alive(root));
    assert!(!world.is_alive(child));
    assert!(!world.is_alive(grandchild));
    assert!(world.is_alive(other));
    assert!(world.is_alive(cousin));
}

#[test]
fn delete_dead_entity_fails() {
    let mut world = World::new();
    let entity = world.create_entity(EntityRecord::new(None), None);
    assert_eq!(delete_hierarchy(entity, &mut world), Ok(()));
    assert_eq!(delete_hierarchy(entity, &mut world), Err(WrongGeneration { entity }));
    assert_eq!(delete_hierarchy(Entity(7), &mut world), Err(WrongGeneration { entity: Entity(7) }));
}

#[test]
fn move_balls_integrates_velocity() {
    let mut world = World::new();
    let root = world.create_entity(EntityRecord::new(None), None);
    let ball = initialise_ball(&mut world, root, BALL_RADIUS, [75, -50], Some([10 * UNIT, 20 * UNIT]));
    MoveBallsSystem.run(&mut world, 100_000);
    assert_eq!(ball_of(&world, ball).1, Transform { x: 10 * UNIT + 7_500_000, y: 20 * UNIT - 5_000_000 });
}

#[test]
fn move_balls_saturates_at_range_end() {
    let mut world = World::new();
    let root = world.create_entity(EntityRecord::new(None), None);
    let ball = initialise_ball(&mut world, root, BALL_RADIUS, [i64::MAX, -i64::MAX], Some([0, 0]));
    MoveBallsSystem.run(&mut world, 10);
    assert_eq!(ball_of(&world, ball).1, Transform { x: i64::MAX, y: i64::MIN });
}

fn paddle_y(world: &World, side: Side) -> i64 {
    world
        .records
        .iter()
        .find(|r| r.paddle.map_or(false, |p| p.side == side))
        .and_then(|r| r.transform)
        .unwrap()
        .y
}

#[test]
fn paddles_follow_axes_and_stay_inside() {
    let (mut world, _) = arena_with_paddles();
    PaddleSystem.run(&mut world, PaddleAxes { left: Some(1000), right: Some(-500) }, 100_000);
    assert_eq!(paddle_y(&world, Side::Left), 45 * UNIT + 7_500_000);
    assert_eq!(paddle_y(&world, Side::Right), 45 * UNIT - 3_750_000);
    PaddleSystem.run(&mut world, PaddleAxes { left: Some(1000), right: Some(-1000) }, 10_000_000);
    assert_eq!(paddle_y(&world, Side::Left), ARENA_HEIGHT - PADDLE_HEIGHT / 2);
    assert_eq!(paddle_y(&world, Side::Right), PADDLE_HEIGHT / 2);
    PaddleSystem.run(&mut world, PaddleAxes { left: None, right: Some(-333) }, 1);
    assert_eq!(paddle_y(&world, Side::Left), ARENA_HEIGHT - PADDLE_HEIGHT / 2);
    assert_eq!(paddle_y(&world, Side::Right), PADDLE_HEIGHT / 2);
}

#[test]
fn paddle_shift_rounds_towards_zero() {
    let (mut world, _) = arena_with_paddles();
    PaddleSystem.run(&mut world, PaddleAxes { left: Some(1), right: Some(-1) }, 7);
    // 1 * 75 * 7 / 1000 rounds to 0 either way.
    assert_eq!(paddle_y(&world, Side::Left), 45 * UNIT);
    assert_eq!(paddle_y(&world, Side::Right), 45 * UNIT);
}

#[test]
fn register_bundle() {
    let (mut world, root) = arena_with_paddles();
    let score_text = hud(&mut world);
    let ball = initialise_ball(&mut world, root, BALL_RADIUS, [-20, 0], Some([7 * UNIT, ARENA_HEIGHT / 2]));
    let mut board = ScoreBoard::new();
    let mut sounds = Vec::new();
    let frame = FrameInput { delta: 100_000, axes: PaddleAxes { left: Some(0), right: Some(0) }, centi_fps: 12345 };
    PongBundle.dispatch(GameplayState::Running, &mut world, &mut board, score_text, frame, &mut sounds);
    // Moved to x = 5 units, inside the left paddle's hitbox, then reflected.
    assert_eq!(ball_of(&world, ball), ([20, 0], Transform { x: 5 * UNIT, y: ARENA_HEIGHT / 2 }));
    assert_eq!(board.score_left() + board.score_right(), 0);
    assert_eq!(sounds, vec![SoundCue::Bounce]);
    assert_eq!(text_of(&world, score_text.fps_display), "FPS: 123.45");
}

#[test]
fn bundle_scores_after_movement() {
    let mut world = World::new();
    let score_text = hud(&mut world);
    let root = world.create_entity(EntityRecord::new(None), None);
    let ball = initialise_ball(&mut world, root, BALL_RADIUS, [-30, 5], Some([3 * UNIT, 40 * UNIT]));
    let mut board = ScoreBoard::new();
    let mut sounds = Vec::new();
    let frame = FrameInput { delta: 100_000, axes: PaddleAxes { left: None, right: None }, centi_fps: 0 };
    PongBundle.dispatch(GameplayState::Running, &mut world, &mut board, score_text, frame, &mut sounds);
    assert_eq!(ball_of(&world, ball), ([30, 5], Transform { x: ARENA_WIDTH / 2, y: 40 * UNIT + 500_000 }));
    assert_eq!(board.score_right(), 1);
    assert_eq!(text_of(&world, score_text.p2_score), "1");
    assert_eq!(sounds, vec![SoundCue::Score]);
}

#[test]
fn paused_bundle_changes_no_gameplay_state() {
    let (mut world, root) = arena_with_paddles();
    let score_text = hud(&mut world);
    initialise_ball(&mut world, root, BALL_RADIUS, [-10, 0], Some([0, 0]));
    let before: Vec<String> = world.records.iter().map(|r| format!("{:?}", r)).collect();
    let mut board = ScoreBoard::new();
    board.add_point(Side::Left);
    let board_before = board;
    let mut sounds = Vec::new();
    let frame = FrameInput { delta: 1_000_000, axes: PaddleAxes { left: Some(1000), right: Some(-1000) }, centi_fps: 9999 };
    PongBundle.dispatch(GameplayState::Paused, &mut world, &mut board, score_text, frame, &mut sounds);
    let after: Vec<String> = world.records.iter().map(|r| format!("{:?}", r)).collect();
    assert_eq!(before, after);
    assert_eq!(board, board_before);
    assert!(sounds.is_empty());
    assert_eq!(text_of(&world, score_text.fps_display), "FPS: 99.99");
}

#[test]
fn show_fps_writes_two_decimals() {
    let mut world = World::new();
    let score_text = hud(&mut world);
    show_fps(&mut world, score_text, 14405);
    assert_eq!(text_of(&world, score_text.fps_display), "FPS: 144.05");
}

#[test]
fn decimal_and_fps_strings() {
    assert_eq!(decimal_string(0), "0");
    assert_eq!(decimal_string(7), "7");
    assert_eq!(decimal_string(10), "10");
    assert_eq!(decimal_string(999), "999");
    assert_eq!(decimal_string(u64::MAX), u64::MAX.to_string());
    assert_eq!(fps_string(0), "FPS: 0.00");
    assert_eq!(fps_string(5), "FPS: 0.05");
    assert_eq!(fps_string(14400), "FPS: 144.00");
}

#[test]
fn set_text_needs_a_live_text_entity() {
    let mut world = World::new();
    let plain = world.create_entity(EntityRecord::new(None), None);
    let label = world.create_entity(EntityRecord::new(None), Some(String::from("a")));
    world.set_text(plain, String::from("b"));
    assert_eq!(world.text(plain), None);
    world.set_text(label, String::from("c"));
    assert_eq!(world.text(label), Some(String::from("c")));
    delete_hierarchy(label, &mut world).unwrap();
    world.set_text(label, String::from("d"));
    assert_eq!(world.text(label), Some(String::from("c")));
}

#[test]
fn find_returns_first_live_match() {
    let mut world = World::new();
    let first = create_ui(&mut world, Prefab::PauseMenu);
    let second = create_ui(&mut world, Prefab::PauseMenu);
    let resume = world.find(pong::world::UiId::Resume).unwrap();
    assert_eq!(world.records[resume.0].parent, Some(first));
    delete_hierarchy(first, &mut world).unwrap();
    let resume = world.find(pong::world::UiId::Resume).unwrap();
    assert_eq!(world.records[resume.0].parent, Some(second));
    assert_eq!(world.find(pong::world::UiId::Start), None);
}
