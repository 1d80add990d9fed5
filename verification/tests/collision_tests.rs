use shmup_core::collision::resolve_collisions;
use shmup_core::common::auto_move_system;
use shmup_core::define::{
    AutoDespawn, Enemy, EnemySchedule, EnemyScheduleValue, Entity, FromEnemyShoot,
    FromPlayerShoot, GameState, GameTimer, MotionPattern, Player, PlayerStatus, ShootType,
    SpeedControl, Velocity, WindowSizeLimit,
};
use shmup_core::timer::{Timer, TimerMode};

fn blank_entity(id: u64, x: i64, y: i64) -> Entity {
    Entity {
        id,
        x,
        y,
        z: 0,
        radius: 0,
        velocity: None,
        player: None,
        enemy: None,
        player_shoot: None,
        enemy_shoot: None,
        auto_despawn: None,
        start_position: None,
        bang_point: None,
        bang: None,
        pattern: MotionPattern::Plain,
    }
}

fn armed_schedule() -> EnemySchedule {
    EnemySchedule {
        enemy_pattern_001: EnemyScheduleValue { seconds: 5, enable: true },
        enemy_pattern_002: EnemyScheduleValue { seconds: 15, enable: true },
        enemy_pattern_003: EnemyScheduleValue { seconds: 30, enable: true },
        enemy_pattern_004: EnemyScheduleValue { seconds: 45, enable: true },
        enemy_pattern_005: EnemyScheduleValue { seconds: 60, enable: true },
        enemy_pattern_006: EnemyScheduleValue { seconds: 75, enable: true },
        enemy_pattern_007: EnemyScheduleValue { seconds: 90, enable: true },
    }
}

fn state_with(entities: Vec<Entity>) -> GameState {
    GameState {
        limit: WindowSizeLimit::new(305_000, -305_000, 250_000, -250_000),
        status: PlayerStatus { is_spawn: false, timer: Timer::new(1000, TimerMode::Once), score: 0 },
        speed: SpeedControl { value: 1000 },
        game_timer: GameTimer { timer: Timer::new(1000, TimerMode::Repeating), seconds: 0 },
        schedule: armed_schedule(),
        entities,
        next_id: 100,
    }
}

fn player_at(id: u64, x: i64, y: i64, radius: i64) -> Entity {
    let mut e = blank_entity(id, x, y);
    e.radius = radius;
    e.z = 10_000;
    e.player = Some(Player { is_enable: true, shoot_type: ShootType::Normal });
    e
}

fn enemy_at(id: u64, x: i64, y: i64, point: u64) -> Entity {
    let mut e = blank_entity(id, x, y);
    e.radius = 15_000;
    e.velocity = Some(Velocity { x: 0, y: 0 });
    e.enemy = Some(Enemy { shoot_interval: Timer::new(1500, TimerMode::Repeating), point });
    e.auto_despawn = Some(AutoDespawn);
    e
}

fn player_shot_at(id: u64, x: i64, y: i64) -> Entity {
    let mut e = blank_entity(id, x, y);
    e.radius = 5_000;
    e.velocity = Some(Velocity { x: 0, y: 3000 });
    e.player_shoot = Some(FromPlayerShoot);
    e.auto_despawn = Some(AutoDespawn);
    e
}

fn enemy_shot_at(id: u64, x: i64, y: i64, vy: i64) -> Entity {
    let mut e = blank_entity(id, x, y);
    e.radius = 5_000;
    e.velocity = Some(Velocity { x: 0, y: vy });
    e.enemy_shoot = Some(FromEnemyShoot);
    e.auto_despawn = Some(AutoDespawn);
    e
}

#[test]
fn scenario_enemy_shot_reaches_player_after_five_ticks() {
    // Field 500x610, player radius 20 at (0, -285); enemy projectile at
    // (0, -300) rising by 3 per tick, multiplier 1.0.
    let mut s = state_with(vec![
        player_at(1, 0, -285_000, 20_000),
        enemy_shot_at(2, 0, -300_000, 3_000),
    ]);
    for _ in 0..5 {
        auto_move_system(&mut s);
    }
    assert_eq!(s.entities[1].y, -285_000);
    resolve_collisions(&mut s);
    // Player and projectile despawned; one effect marker at the player.
    assert_eq!(s.entities.len(), 1);
    assert!(s.entities[0].bang_point.is_some());
    let p = s.entities[0].bang_point.unwrap();
    assert_eq!((p.x, p.y), (0, -285_000));
    assert!(s.status.is_spawn);
    assert_eq!(s.status.timer.duration_ms, 3_000);
    assert_eq!(s.status.timer.elapsed_ms, 0);
    assert!(matches!(s.status.timer.mode, TimerMode::Once));
}

#[test]
fn scenario_kill_scores_exactly_once_and_is_idempotent() {
    // Enemy worth 1.0 (1000 milli-points) hit by one player projectile.
    let mut s = state_with(vec![
        enemy_at(1, 0, 0, 1_000),
        player_shot_at(2, 0, 10_000),
    ]);
    resolve_collisions(&mut s);
    assert_eq!(s.status.score, 1_000);
    assert_eq!(s.entities.len(), 1);
    assert!(s.entities[0].bang_point.is_some());
    let next_id_after = s.next_id;
    let len_after = s.entities.len();
    // Re-running resolution on the already-resolved frame changes nothing.
    resolve_collisions(&mut s);
    assert_eq!(s.status.score, 1_000);
    assert_eq!(s.entities.len(), len_after);
    assert_eq!(s.next_id, next_id_after);
    assert!(!s.status.is_spawn);
}

#[test]
fn one_enemy_takes_only_one_of_two_projectiles() {
    // Two projectiles overlap the same enemy: the enemy dies once, the
    // score counts once, and the second projectile survives the pass.
    let mut s = state_with(vec![
        enemy_at(1, 0, 0, 1_000),
        player_shot_at(2, -5_000, 0),
        player_shot_at(3, 5_000, 0),
    ]);
    resolve_collisions(&mut s);
    assert_eq!(s.status.score, 1_000);
    let survivors: Vec<u64> =
        s.entities.iter().filter(|e| e.bang_point.is_none()).map(|e| e.id).collect();
    assert_eq!(survivors, vec![3]);
}

#[test]
fn disabled_player_takes_no_damage() {
    let mut s = state_with(vec![
        player_at(1, 0, 0, 20_000),
        enemy_shot_at(2, 0, 0, -3_000),
    ]);
    s.entities[0].player = Some(Player { is_enable: false, shoot_type: ShootType::Normal });
    resolve_collisions(&mut s);
    assert_eq!(s.entities.len(), 2);
    assert!(!s.status.is_spawn);
}

#[test]
fn player_enemy_contact_destroys_both_with_two_effects() {
    let mut s = state_with(vec![
        player_at(1, 0, 0, 20_000),
        enemy_at(2, 10_000, 10_000, 1_000),
    ]);
    resolve_collisions(&mut s);
    let markers: Vec<(i64, i64)> = s
        .entities
        .iter()
        .filter(|e| e.bang_point.is_some())
        .map(|e| (e.x, e.y))
        .collect();
    assert_eq!(markers, vec![(0, 0), (10_000, 10_000)]);
    assert_eq!(s.entities.len(), 2);
    assert!(s.status.is_spawn);
    assert_eq!(s.status.timer.duration_ms, 3_000);
    // Contact kills award no points.
    assert_eq!(s.status.score, 0);
}

#[test]
fn touching_boxes_do_not_collide() {
    // |dx| equal to the radius sum is a miss: the overlap is strict.
    let mut s = state_with(vec![
        enemy_at(1, 0, 0, 1_000),
        player_shot_at(2, 20_000, 0),
    ]);
    resolve_collisions(&mut s);
    assert_eq!(s.status.score, 0);
    assert_eq!(s.entities.len(), 2);
}
