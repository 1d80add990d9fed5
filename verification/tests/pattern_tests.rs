use shmup_core::define::{
    AutoDespawn, Curve, Enemy, EnemySchedule, EnemyScheduleValue, Entity, GameState, GameTimer,
    MotionPattern, PlayerStatus, SpeedControl, TrigSample, Velocity, WaitTimer, WindowSizeLimit,
};
use shmup_core::patterns::apply_patterns;
use shmup_core::timer::{Timer, TimerMode};

fn armed_schedule() -> EnemySchedule {
    EnemySchedule {
        enemy_pattern_001: EnemyScheduleValue { seconds: 5, enable: true },
        enemy_pattern_002: EnemyScheduleValue { seconds: 15, enable: true },
        enemy_pattern_003: EnemyScheduleValue { seconds: 30, enable: true },
        enemy_pattern_004: EnemyScheduleValue { seconds: 45, enable: true },
        enemy_pattern_005: EnemyScheduleValue { seconds: 60, enable: true },
        enemy_pattern_006: EnemyScheduleValue { seconds: 75, enable: true },
        enemy_pattern_007: EnemyScheduleValue { seconds: 90, enable: true },
    }
}

fn state_with(entities: Vec<Entity>) -> GameState {
    GameState {
        limit: WindowSizeLimit::new(305_000, -305_000, 250_000, -250_000),
        status: PlayerStatus { is_spawn: false, timer: Timer::new(1000, TimerMode::Once), score: 0 },
        speed: SpeedControl { value: 1000 },
        game_timer: GameTimer { timer: Timer::new(1000, TimerMode::Repeating), seconds: 0 },
        schedule: armed_schedule(),
        entities,
        next_id: 100,
    }
}

fn patterned_enemy(id: u64, x: i64, y: i64, vx: i64, vy: i64, pattern: MotionPattern) -> Entity {
    Entity {
        id,
        x,
        y,
        z: 9_000,
        radius: 15_000,
        velocity: Some(Velocity { x: vx, y: vy }),
        player: None,
        enemy: Some(Enemy { shoot_interval: Timer::new(1500, TimerMode::Repeating), point: 1000 }),
        player_shoot: None,
        enemy_shoot: None,
        auto_despawn: Some(AutoDespawn),
        start_position: None,
        bang_point: None,
        bang: None,
        pattern,
    }
}

fn trig(sin_elapsed: i64, orbit_cos: i64, orbit_sin: i64) -> TrigSample {
    TrigSample { sin_elapsed, orbit_cos, orbit_sin }
}

#[test]
fn sine_pattern_scales_the_sample() {
    let mut s = state_with(vec![patterned_enemy(1, 0, 0, 0, -500, MotionPattern::SineLateral)]);
    apply_patterns(&mut s, trig(1000, 0, 0), 16);
    let v = s.entities[0].velocity.unwrap();
    assert_eq!((v.x, v.y), (3_142, -500));
    apply_patterns(&mut s, trig(-500, 0, 0), 16);
    assert_eq!(s.entities[0].velocity.unwrap().x, -1_571);
    // The position itself is left to the integrator.
    assert_eq!((s.entities[0].x, s.entities[0].y), (0, 0));
}

#[test]
fn random_walk_resamples_within_range() {
    let mut s = state_with(vec![patterned_enemy(1, 0, 0, 0, -500, MotionPattern::RandomWalk)]);
    for _ in 0..20 {
        apply_patterns(&mut s, trig(0, 0, 0), 16);
        let v = s.entities[0].velocity.unwrap();
        assert!((-10_000..10_000).contains(&v.x));
        assert_eq!(v.y, -500);
    }
}

#[test]
fn random_walkers_share_one_draw_per_frame() {
    // The frame draws one lateral velocity and applies it to every walker.
    let mut s = state_with(vec![
        patterned_enemy(1, -50_000, 0, 0, -500, MotionPattern::RandomWalk),
        patterned_enemy(2, 50_000, 0, 0, -700, MotionPattern::RandomWalk),
        patterned_enemy(3, 0, 0, 0, -900, MotionPattern::RandomWalk),
    ]);
    for _ in 0..10 {
        apply_patterns(&mut s, trig(0, 0, 0), 16);
        let v0 = s.entities[0].velocity.unwrap();
        let v1 = s.entities[1].velocity.unwrap();
        let v2 = s.entities[2].velocity.unwrap();
        assert_eq!(v0.x, v1.x);
        assert_eq!(v1.x, v2.x);
        assert_eq!((v0.y, v1.y, v2.y), (-500, -700, -900));
    }
}

#[test]
fn triangle_wave_reverses_at_the_half_cycle() {
    let mut s = state_with(vec![
        patterned_enemy(1, 0, 0, 0, 0, MotionPattern::TriangleWave { counter: 0 }),
    ]);
    for step in 1..=100i64 {
        apply_patterns(&mut s, trig(0, 0, 0), 16);
        let expect = if step <= 100 { step * 1_000 } else { 0 };
        assert_eq!(s.entities[0].velocity.unwrap().x, expect);
    }
    // The second half of the cycle ramps back down.
    apply_patterns(&mut s, trig(0, 0, 0), 16);
    assert_eq!(s.entities[0].velocity.unwrap().x, 99_000);
    match s.entities[0].pattern {
        MotionPattern::TriangleWave { counter } => assert_eq!(counter, 101),
        _ => panic!("wrong pattern"),
    }
}

#[test]
fn parabola_steers_towards_the_curve() {
    // Target at x = 0 is -200; from y = -100 the step is the difference.
    let mut s = state_with(vec![patterned_enemy(1, 0, -100_000, -200, 0, MotionPattern::Parabola)]);
    apply_patterns(&mut s, trig(0, 0, 0), 16);
    let v = s.entities[0].velocity.unwrap();
    assert_eq!(v.x, -200);
    assert_eq!(v.y, -100_000);
    // At x = 100: 0.1*100^2 + 10*100 - 200 = 1800.
    let mut s2 =
        state_with(vec![patterned_enemy(1, 100_000, 0, 0, 0, MotionPattern::Parabola)]);
    apply_patterns(&mut s2, trig(0, 0, 0), 16);
    assert_eq!(s2.entities[0].velocity.unwrap().y, 1_800_000);
}

#[test]
fn orbit_circles_a_descending_anchor() {
    let mut s = state_with(vec![
        patterned_enemy(1, 0, 200_000, 0, -500, MotionPattern::Orbit { base_y: 200_000 }),
    ]);
    apply_patterns(&mut s, trig(0, 1000, 0), 16);
    assert_eq!((s.entities[0].x, s.entities[0].y), (100_000, 200_000));
    match s.entities[0].pattern {
        MotionPattern::Orbit { base_y } => assert_eq!(base_y, 199_500),
        _ => panic!("wrong pattern"),
    }
    apply_patterns(&mut s, trig(0, 0, -1000), 16);
    assert_eq!((s.entities[0].x, s.entities[0].y), (0, 199_500 - 100_000));
}

#[test]
fn bounce_halts_even_when_a_step_overshoots_the_trigger() {
    // A descent step that lands past the trigger altitude still halts the
    // enemy on its first frame at or below the line.
    let mut s = state_with(vec![
        patterned_enemy(1, 80_000, -100_800, 0, -2_000, MotionPattern::BounceDescend {
            wait: None,
        }),
    ]);
    apply_patterns(&mut s, trig(0, 0, 0), 16);
    let v = s.entities[0].velocity.unwrap();
    assert_eq!((v.x, v.y), (0, 0));
    assert_eq!(s.entities[0].y, -100_100);
    assert!(matches!(
        s.entities[0].pattern,
        MotionPattern::BounceDescend { wait: Some(_) }
    ));
    // Above the line nothing happens.
    let mut s2 = state_with(vec![
        patterned_enemy(2, 80_000, -99_999, 0, -2_000, MotionPattern::BounceDescend {
            wait: None,
        }),
    ]);
    apply_patterns(&mut s2, trig(0, 0, 0), 16);
    assert_eq!(s2.entities[0].velocity.unwrap().y, -2_000);
    assert_eq!(s2.entities[0].y, -99_999);
}

#[test]
fn bounce_halts_waits_then_runs_diagonally() {
    let mut s = state_with(vec![
        patterned_enemy(1, 80_000, -100_000, 0, -2_000, MotionPattern::BounceDescend {
            wait: None,
        }),
    ]);
    // At the trigger altitude: halt, nudge below, arm the wait timer.
    apply_patterns(&mut s, trig(0, 0, 0), 16);
    let v = s.entities[0].velocity.unwrap();
    assert_eq!((v.x, v.y), (0, 0));
    assert_eq!(s.entities[0].y, -100_100);
    match &s.entities[0].pattern {
        MotionPattern::BounceDescend { wait: Some(w) } => {
            assert_eq!(w.timer.duration_ms, 3_000);
        },
        _ => panic!("wait timer not armed"),
    }
    // Wait out the delay; on the right half the run goes up-right.
    apply_patterns(&mut s, trig(0, 0, 0), 3_000);
    let v2 = s.entities[0].velocity.unwrap();
    assert_eq!((v2.x, v2.y), (3_000, 3_000));

    // A left-half enemy runs up-left after its wait.
    let mut s2 = state_with(vec![
        patterned_enemy(2, -80_000, -100_100, 0, 0, MotionPattern::BounceDescend {
            wait: Some(WaitTimer { timer: Timer::new(3_000, TimerMode::Once) }),
        }),
    ]);
    apply_patterns(&mut s2, trig(0, 0, 0), 3_000);
    let v3 = s2.entities[0].velocity.unwrap();
    assert_eq!((v3.x, v3.y), (-3_000, 3_000));
}

#[test]
fn bezier_tracks_the_curve_endpoints() {
    let curve = Curve {
        x0: -230_000,
        y0: 0,
        x1: 460_000,
        y1: 240_000,
        x2: -460_000,
        y2: 240_000,
        x3: 230_000,
        y3: 0,
    };
    let mut s = state_with(vec![
        patterned_enemy(1, -230_000, 0, 0, 0, MotionPattern::BezierSwoop { curve }),
    ]);
    // sin = -1 gives parameter 0: the curve start.
    apply_patterns(&mut s, trig(-1000, 0, 0), 16);
    assert_eq!((s.entities[0].x, s.entities[0].y), (-230_000, 0));
    // sin = +1 gives parameter 1: the curve end.
    apply_patterns(&mut s, trig(1000, 0, 0), 16);
    assert_eq!((s.entities[0].x, s.entities[0].y), (230_000, 0));
    // sin = 0 gives the halfway point of the symmetric curve: x = 0.
    apply_patterns(&mut s, trig(0, 0, 0), 16);
    assert_eq!(s.entities[0].x, 0);
    assert_eq!(s.entities[0].y, 180_000);
}
