use shmup_core::define::{GameState, InputState, TrigSample};
use shmup_core::sim::{fixed_tick, frame_tick, game_timer_system};

fn level_trig() -> TrigSample {
    TrigSample { sin_elapsed: 0, orbit_cos: 1000, orbit_sin: 0 }
}

#[test]
fn game_clock_counts_whole_seconds() {
    let mut s = GameState::new(400_000, 720_000);
    game_timer_system(&mut s, 999);
    assert_eq!(s.game_timer.seconds, 0);
    game_timer_system(&mut s, 1);
    assert_eq!(s.game_timer.seconds, 1);
    game_timer_system(&mut s, 1000);
    assert_eq!(s.game_timer.seconds, 2);
}

#[test]
fn new_state_starts_clean() {
    let s = GameState::new(400_000, 720_000);
    assert_eq!(s.entities.len(), 0);
    assert_eq!(s.status.score, 0);
    assert!(s.status.is_spawn);
    assert_eq!(s.speed.value, 1_000);
    assert_eq!(s.limit.right, 200_000);
    assert_eq!(s.limit.left, -200_000);
    assert_eq!(s.limit.top, 360_000);
    assert_eq!(s.limit.bottom, -360_000);
    assert!(s.schedule.enemy_pattern_001.enable);
    assert_eq!(s.schedule.enemy_pattern_001.seconds, 5);
    assert_eq!(s.schedule.enemy_pattern_007.seconds, 90);
}

#[test]
fn frames_spawn_the_player_and_then_the_first_wave() {
    let mut s = GameState::new(400_000, 720_000);
    let input = InputState::none();
    // 1.5 simulated seconds at 50 ms per frame: the player appears after
    // the one-second initial delay.
    for _ in 0..30 {
        frame_tick(&mut s, input, level_trig(), 50);
        fixed_tick(&mut s);
    }
    assert_eq!(s.entities.iter().filter(|e| e.player.is_some()).count(), 1);
    assert!(!s.status.is_spawn);
    // By seconds >= 5 the first wave has fired exactly once: five enemies.
    for _ in 0..80 {
        frame_tick(&mut s, input, level_trig(), 50);
        fixed_tick(&mut s);
    }
    assert!(s.game_timer.seconds >= 5);
    assert!(!s.schedule.enemy_pattern_001.enable);
    assert_eq!(s.entities.iter().filter(|e| e.enemy.is_some()).count(), 5);
}

#[test]
fn long_run_keeps_one_player_at_most() {
    let mut s = GameState::new(400_000, 720_000);
    let mut input = InputState::none();
    input.fire = true;
    for frame in 0..400u32 {
        input.up = frame % 3 == 0;
        input.left = frame % 5 == 0;
        frame_tick(&mut s, input, level_trig(), 40);
        fixed_tick(&mut s);
        assert!(s.entities.iter().filter(|e| e.player.is_some()).count() <= 1);
        // The clamp keeps any player strictly inside the field.
        for e in s.entities.iter() {
            if e.player.is_some() {
                assert!(e.x >= s.limit.left + e.radius && e.x <= s.limit.right - e.radius);
                assert!(e.y >= s.limit.bottom + e.radius && e.y <= s.limit.top - e.radius);
            }
        }
    }
    assert!(s.game_timer.seconds >= 16);
}
