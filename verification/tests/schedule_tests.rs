use shmup_core::define::{EnemySchedule, EnemyScheduleValue, GameState, MotionPattern};
use shmup_core::enemy::{
    enemy_spawn_pattern_001, enemy_spawn_pattern_003, enemy_spawn_pattern_006,
    enemy_spawn_pattern_007, enemy_shoot_system, get_shoot_duration,
};

#[test]
fn wave_fires_exactly_when_clock_first_reaches_trigger() {
    // Trigger second 5; the clock counts 0,1,2,...,6.
    let mut entry = EnemyScheduleValue { seconds: 5, enable: true };
    let mut fires: Vec<bool> = vec![];
    for t in 0..7u64 {
        fires.push(EnemySchedule::is_ready(&mut entry, t));
    }
    assert_eq!(fires, vec![false, false, false, false, false, true, false]);
    // Even if the clock reads 5 again, the disarmed entry never re-fires.
    assert!(!EnemySchedule::is_ready(&mut entry, 5));
    assert!(!entry.enable);
}

#[test]
fn wave_fires_on_late_evaluation_past_the_boundary() {
    // A skipped boundary frame still fires at the next reading (>= not ==).
    let mut entry = EnemyScheduleValue { seconds: 5, enable: true };
    assert!(!EnemySchedule::is_ready(&mut entry, 4));
    assert!(EnemySchedule::is_ready(&mut entry, 9));
    assert!(!EnemySchedule::is_ready(&mut entry, 9));
}

#[test]
fn first_wave_spawns_its_row_once() {
    let mut s = GameState::new(400_000, 720_000);
    s.game_timer.seconds = 5;
    enemy_spawn_pattern_001(&mut s);
    assert_eq!(s.entities.len(), 5);
    let xs: Vec<i64> = s.entities.iter().map(|e| e.x).collect();
    let x = 200_000 / 3;
    assert_eq!(xs, vec![x, 2 * x, 0, -x, -2 * x]);
    for e in s.entities.iter() {
        assert_eq!(e.y, 360_000 + 30_000);
        let v = e.velocity.unwrap();
        assert_eq!((v.x, v.y), (0, -500));
        assert!(matches!(e.pattern, MotionPattern::SineLateral));
        let en = e.enemy.unwrap();
        assert_eq!(en.point, 1_000);
        let d = en.shoot_interval.duration_ms;
        assert!((1_000..3_000).contains(&d));
    }
    // Fire-once: later frames with the clock past the trigger add nothing.
    enemy_spawn_pattern_001(&mut s);
    s.game_timer.seconds = 10;
    enemy_spawn_pattern_001(&mut s);
    assert_eq!(s.entities.len(), 5);
}

#[test]
fn parabola_wave_spawns_mirrored_pair() {
    let mut s = GameState::new(400_000, 720_000);
    s.game_timer.seconds = 30;
    enemy_spawn_pattern_003(&mut s);
    assert_eq!(s.entities.len(), 2);
    assert_eq!((s.entities[0].x, s.entities[0].y), (40_000, 390_000));
    assert_eq!((s.entities[1].x, s.entities[1].y), (-40_000, 410_000));
    assert_eq!(s.entities[0].velocity.unwrap().x, -200);
    assert_eq!(s.entities[1].velocity.unwrap().x, 200);
    // Both share one fire interval, as spawned.
    assert_eq!(
        s.entities[0].enemy.unwrap().shoot_interval.duration_ms,
        s.entities[1].enemy.unwrap().shoot_interval.duration_ms
    );
}

#[test]
fn bounce_wave_spawns_fast_droppers() {
    let mut s = GameState::new(400_000, 720_000);
    s.game_timer.seconds = 75;
    enemy_spawn_pattern_006(&mut s);
    assert_eq!(s.entities.len(), 2);
    assert_eq!(s.entities[0].x, 80_000);
    assert_eq!(s.entities[1].x, -80_000);
    for e in s.entities.iter() {
        assert_eq!(e.velocity.unwrap().y, -2_000);
        assert!(matches!(e.pattern, MotionPattern::BounceDescend { wait: None }));
    }
}

#[test]
fn bezier_wave_spawns_on_its_curve_start() {
    let mut s = GameState::new(400_000, 720_000);
    s.game_timer.seconds = 90;
    enemy_spawn_pattern_007(&mut s);
    assert_eq!(s.entities.len(), 1);
    let x = 200_000 + 30_000;
    assert_eq!((s.entities[0].x, s.entities[0].y), (-x, 0));
    match s.entities[0].pattern {
        MotionPattern::BezierSwoop { curve } => {
            assert_eq!((curve.x0, curve.y0), (-x, 0));
            assert_eq!((curve.x1, curve.y1), (2 * x, 240_000));
            assert_eq!((curve.x2, curve.y2), (-2 * x, 240_000));
            assert_eq!((curve.x3, curve.y3), (x, 0));
        },
        _ => panic!("wrong pattern"),
    }
}

#[test]
fn shot_intervals_stay_inside_their_range() {
    for _ in 0..50 {
        let d = get_shoot_duration();
        assert!((1_000..3_000).contains(&d));
    }
}

#[test]
fn enemies_fire_downward_when_their_timer_completes() {
    let mut s = GameState::new(400_000, 720_000);
    s.game_timer.seconds = 30;
    enemy_spawn_pattern_003(&mut s);
    let interval = s.entities[0].enemy.unwrap().shoot_interval.duration_ms;
    let before = s.entities.len();
    enemy_shoot_system(&mut s, interval);
    // Both enemies share the interval, so both fire one projectile.
    assert_eq!(s.entities.len(), before + 2);
    let shots: Vec<_> = s.entities.iter().filter(|e| e.enemy_shoot.is_some()).collect();
    assert_eq!(shots.len(), 2);
    for (shot, enemy_ix) in shots.iter().zip([0usize, 1usize]) {
        assert_eq!(shot.x, s.entities[enemy_ix].x);
        assert_eq!(shot.y, s.entities[enemy_ix].y);
        let v = shot.velocity.unwrap();
        assert_eq!((v.x, v.y), (0, -3_000));
    }
    // Just under the interval: no fire.
    let mut s2 = GameState::new(400_000, 720_000);
    s2.game_timer.seconds = 30;
    enemy_spawn_pattern_003(&mut s2);
    let interval2 = s2.entities[0].enemy.unwrap().shoot_interval.duration_ms;
    let before2 = s2.entities.len();
    enemy_shoot_system(&mut s2, interval2 - 1);
    assert_eq!(s2.entities.len(), before2);
}

#[test]
fn middle_waves_spawn_their_formations() {
    // Wave two: one wanderer at the top centre.
    let mut s = GameState::new(400_000, 720_000);
    s.game_timer.seconds = 15;
    shmup_core::enemy::enemy_spawn_pattern_002(&mut s);
    assert_eq!(s.entities.len(), 1);
    assert_eq!((s.entities[0].x, s.entities[0].y), (0, 390_000));
    assert!(matches!(s.entities[0].pattern, MotionPattern::RandomWalk));

    // Wave four: one orbiter anchored where it spawns.
    let mut s4 = GameState::new(400_000, 720_000);
    s4.game_timer.seconds = 45;
    shmup_core::enemy::enemy_spawn_pattern_004(&mut s4);
    assert_eq!(s4.entities.len(), 1);
    match s4.entities[0].pattern {
        MotionPattern::Orbit { base_y } => assert_eq!(base_y, 390_000),
        _ => panic!("wrong pattern"),
    }

    // Wave five: five side-entry enemies at staggered heights.
    let mut s5 = GameState::new(400_000, 720_000);
    s5.game_timer.seconds = 60;
    shmup_core::enemy::enemy_spawn_pattern_005(&mut s5);
    assert_eq!(s5.entities.len(), 5);
    let xl = -200_000 - 50_000;
    let xr = 200_000 + 50_000;
    let got: Vec<(i64, i64, i64)> =
        s5.entities.iter().map(|e| (e.x, e.y, e.velocity.unwrap().x)).collect();
    assert_eq!(
        got,
        vec![
            (xl, -200_000, 500),
            (xr, -100_000, -500),
            (xl, 0, 500),
            (xr, 100_000, -500),
            (xl, 200_000, 500),
        ]
    );
    for e in s5.entities.iter() {
        assert!(matches!(e.pattern, MotionPattern::TriangleWave { counter: 0 }));
    }
}
