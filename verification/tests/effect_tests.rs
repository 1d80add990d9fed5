use shmup_core::collision::resolve_collisions;
use shmup_core::common::{shoot_bang_system, show_bang_system};
use shmup_core::define::{
    AutoDespawn, Enemy, EnemySchedule, EnemyScheduleValue, Entity, FromPlayerShoot, GameState,
    GameTimer, MotionPattern, PlayerStatus, SpeedControl, Velocity, WindowSizeLimit,
};
use shmup_core::timer::{Timer, TimerMode};

fn armed_schedule() -> EnemySchedule {
    EnemySchedule {
        enemy_pattern_001: EnemyScheduleValue { seconds: 5, enable: true },
        enemy_pattern_002: EnemyScheduleValue { seconds: 15, enable: true },
        enemy_pattern_003: EnemyScheduleValue { seconds: 30, enable: true },
        enemy_pattern_004: EnemyScheduleValue { seconds: 45, enable: true },
        enemy_pattern_005: EnemyScheduleValue { seconds: 60, enable: true },
        enemy_pattern_006: EnemyScheduleValue { seconds: 75, enable: true },
        enemy_pattern_007: EnemyScheduleValue { seconds: 90, enable: true },
    }
}

fn state_with(entities: Vec<Entity>) -> GameState {
    GameState {
        limit: WindowSizeLimit::new(305_000, -305_000, 250_000, -250_000),
        status: PlayerStatus { is_spawn: false, timer: Timer::new(1000, TimerMode::Once), score: 0 },
        speed: SpeedControl { value: 1000 },
        game_timer: GameTimer { timer: Timer::new(1000, TimerMode::Repeating), seconds: 0 },
        schedule: armed_schedule(),
        entities,
        next_id: 100,
    }
}

fn blank_entity(id: u64, x: i64, y: i64) -> Entity {
    Entity {
        id,
        x,
        y,
        z: 0,
        radius: 0,
        velocity: None,
        player: None,
        enemy: None,
        player_shoot: None,
        enemy_shoot: None,
        auto_despawn: None,
        start_position: None,
        bang_point: None,
        bang: None,
        pattern: MotionPattern::Plain,
    }
}

#[test]
fn kill_marker_becomes_timed_effect_and_expires() {
    let mut enemy = blank_entity(1, 30_000, 40_000);
    enemy.radius = 15_000;
    enemy.velocity = Some(Velocity { x: 0, y: 0 });
    enemy.enemy =
        Some(Enemy { shoot_interval: Timer::new(1500, TimerMode::Repeating), point: 1_000 });
    enemy.auto_despawn = Some(AutoDespawn);
    let mut shot = blank_entity(2, 30_000, 45_000);
    shot.radius = 5_000;
    shot.velocity = Some(Velocity { x: 0, y: 3_000 });
    shot.player_shoot = Some(FromPlayerShoot);
    shot.auto_despawn = Some(AutoDespawn);

    let mut s = state_with(vec![enemy, shot]);
    resolve_collisions(&mut s);
    // The kill left one effect-request marker at the enemy's last position.
    assert_eq!(s.entities.len(), 1);
    assert!(s.entities[0].bang_point.is_some());
    let marker_id = s.entities[0].id;
    assert_eq!(marker_id, 100);
    assert_eq!(s.next_id, 101);

    // The next frame turns the marker into a visible effect with a fresh
    // identifier and a half-second lifetime.
    show_bang_system(&mut s);
    assert_eq!(s.entities.len(), 1);
    let effect = &s.entities[0];
    assert!(effect.bang_point.is_none());
    assert!(effect.bang.is_some());
    assert_eq!((effect.x, effect.y), (30_000, 40_000));
    assert_eq!(effect.id, 101);
    assert_eq!(effect.bang.as_ref().unwrap().timer.duration_ms, 500);
    assert!(effect.auto_despawn.is_some());

    // The effect outlives shorter ticks and expires on its boundary.
    shoot_bang_system(&mut s, 499);
    assert_eq!(s.entities.len(), 1);
    shoot_bang_system(&mut s, 1);
    assert_eq!(s.entities.len(), 0);
}
