use shmup_core::common::{
    auto_despawn_system, auto_move_system, player_in_window_system, speed_control_system,
};
use shmup_core::define::{
    AutoDespawn, Enemy, EnemySchedule, EnemyScheduleValue, Entity, GameState, GameTimer,
    InputState, MotionPattern, Player, PlayerStatus, ShootType, SpeedControl, Velocity,
    WindowSizeLimit,
};
use shmup_core::timer::{Timer, TimerMode};

fn blank_entity(id: u64, x: i64, y: i64) -> Entity {
    Entity {
        id,
        x,
        y,
        z: 0,
        radius: 0,
        velocity: None,
        player: None,
        enemy: None,
        player_shoot: None,
        enemy_shoot: None,
        auto_despawn: None,
        start_position: None,
        bang_point: None,
        bang: None,
        pattern: MotionPattern::Plain,
    }
}

fn enemy_at(id: u64, x: i64, y: i64, vx: i64, vy: i64) -> Entity {
    let mut e = blank_entity(id, x, y);
    e.radius = 15_000;
    e.velocity = Some(Velocity { x: vx, y: vy });
    e.enemy = Some(Enemy { shoot_interval: Timer::new(1000, TimerMode::Repeating), point: 1000 });
    e.auto_despawn = Some(AutoDespawn);
    e
}

fn player_at(id: u64, x: i64, y: i64, radius: i64, enabled: bool) -> Entity {
    let mut e = blank_entity(id, x, y);
    e.radius = radius;
    e.z = 10_000;
    e.player = Some(Player { is_enable: enabled, shoot_type: ShootType::Normal });
    e
}

fn armed_schedule() -> EnemySchedule {
    EnemySchedule {
        enemy_pattern_001: EnemyScheduleValue { seconds: 5, enable: true },
        enemy_pattern_002: EnemyScheduleValue { seconds: 15, enable: true },
        enemy_pattern_003: EnemyScheduleValue { seconds: 30, enable: true },
        enemy_pattern_004: EnemyScheduleValue { seconds: 45, enable: true },
        enemy_pattern_005: EnemyScheduleValue { seconds: 60, enable: true },
        enemy_pattern_006: EnemyScheduleValue { seconds: 75, enable: true },
        enemy_pattern_007: EnemyScheduleValue { seconds: 90, enable: true },
    }
}

fn state_with(entities: Vec<Entity>) -> GameState {
    GameState {
        limit: WindowSizeLimit::new(305_000, -305_000, 250_000, -250_000),
        status: PlayerStatus { is_spawn: false, timer: Timer::new(1000, TimerMode::Once), score: 0 },
        speed: SpeedControl { value: 1000 },
        game_timer: GameTimer { timer: Timer::new(1000, TimerMode::Repeating), seconds: 0 },
        schedule: armed_schedule(),
        entities,
        next_id: 100,
    }
}

#[test]
fn motion_adds_velocity_exactly_componentwise() {
    let mut s = state_with(vec![
        enemy_at(1, 10_000, 20_000, 300, -500),
        enemy_at(2, -4_000, 0, -123, 456),
        blank_entity(3, 7, 8),
    ]);
    auto_move_system(&mut s);
    assert_eq!(s.entities[0].x, 10_300);
    assert_eq!(s.entities[0].y, 19_500);
    assert_eq!(s.entities[1].x, -4_123);
    assert_eq!(s.entities[1].y, 456);
    // No velocity: no movement, independent of tags.
    assert_eq!(s.entities[2].x, 7);
    assert_eq!(s.entities[2].y, 8);
    // Velocity itself is untouched.
    let v = s.entities[0].velocity.unwrap();
    assert_eq!((v.x, v.y), (300, -500));
}

#[test]
fn clamp_keeps_player_inside_every_edge() {
    // One run per corner: far outside comes back to the inset edge.
    let mut s = state_with(vec![player_at(1, 9_000_000, 9_000_000, 20_000, true)]);
    player_in_window_system(&mut s);
    assert_eq!(s.entities[0].x, 250_000 - 20_000);
    assert_eq!(s.entities[0].y, 305_000 - 20_000);

    let mut s2 = state_with(vec![player_at(1, -9_000_000, -9_000_000, 20_000, true)]);
    player_in_window_system(&mut s2);
    assert_eq!(s2.entities[0].x, -250_000 + 20_000);
    assert_eq!(s2.entities[0].y, -305_000 + 20_000);

    // Inside the field: untouched.
    let mut s3 = state_with(vec![player_at(1, 1_234, -5_678, 20_000, true)]);
    player_in_window_system(&mut s3);
    assert_eq!(s3.entities[0].x, 1_234);
    assert_eq!(s3.entities[0].y, -5_678);
}

#[test]
fn despawn_removes_only_margin_leavers() {
    let inside = enemy_at(1, 0, 0, 0, 0);
    let near_edge = enemy_at(2, 250_000 + 99_000, 0, 0, 0);
    let outside = enemy_at(3, 250_000 + 100_001, 0, 0, 0);
    let below = enemy_at(4, 0, -305_000 - 100_001, 0, 0);
    let keeper_player = player_at(5, 0, 9_999_999_999, 14_000, true);
    let mut s = state_with(vec![inside, near_edge, outside, below, keeper_player]);
    // The player has no auto-despawn tag and stays whatever its position.
    s.entities[4].y = 100_000;
    auto_despawn_system(&mut s);
    let ids: Vec<u64> = s.entities.iter().map(|e| e.id).collect();
    assert_eq!(ids, vec![1, 2, 5]);
}

#[test]
fn speed_control_scales_by_fifths() {
    let mut s = state_with(vec![]);
    let mut up = InputState::none();
    up.speed_up = true;
    speed_control_system(&mut s, up);
    assert_eq!(s.speed.value, 1200);
    speed_control_system(&mut s, up);
    assert_eq!(s.speed.value, 1440);
    let mut down = InputState::none();
    down.speed_down = true;
    speed_control_system(&mut s, down);
    assert_eq!(s.speed.value, 1152);
    // The multiplier never reaches zero.
    s.speed.value = 1;
    speed_control_system(&mut s, down);
    assert_eq!(s.speed.value, 1);
}
