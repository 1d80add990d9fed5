use shmup_core::define::{
    EnemySchedule, EnemyScheduleValue, Entity, GameState, GameTimer, InputState, MotionPattern,
    Player, PlayerStatus, ShootType, SpeedControl, WindowSizeLimit,
};
use shmup_core::player::{
    player_move_system, player_shoot_system, player_shoot_type, player_start_position,
    player_status_system,
};
use shmup_core::timer::{Timer, TimerMode};

fn armed_schedule() -> EnemySchedule {
    EnemySchedule {
        enemy_pattern_001: EnemyScheduleValue { seconds: 5, enable: true },
        enemy_pattern_002: EnemyScheduleValue { seconds: 15, enable: true },
        enemy_pattern_003: EnemyScheduleValue { seconds: 30, enable: true },
        enemy_pattern_004: EnemyScheduleValue { seconds: 45, enable: true },
        enemy_pattern_005: EnemyScheduleValue { seconds: 60, enable: true },
        enemy_pattern_006: EnemyScheduleValue { seconds: 75, enable: true },
        enemy_pattern_007: EnemyScheduleValue { seconds: 90, enable: true },
    }
}

fn empty_state() -> GameState {
    GameState {
        limit: WindowSizeLimit::new(360_000, -360_000, 200_000, -200_000),
        status: PlayerStatus { is_spawn: true, timer: Timer::new(1000, TimerMode::Once), score: 0 },
        speed: SpeedControl { value: 1000 },
        game_timer: GameTimer { timer: Timer::new(1000, TimerMode::Repeating), seconds: 0 },
        schedule: armed_schedule(),
        entities: vec![],
        next_id: 0,
    }
}

fn the_player(s: &GameState) -> &Entity {
    for e in s.entities.iter() {
        if e.player.is_some() {
            return e;
        }
    }
    panic!("no player");
}

#[test]
fn respawn_creates_disabled_player_at_start_offset() {
    let mut s = empty_state();
    player_status_system(&mut s, 999);
    assert_eq!(s.entities.len(), 0);
    assert!(s.status.is_spawn);
    player_status_system(&mut s, 1);
    assert_eq!(s.entities.len(), 1);
    assert!(!s.status.is_spawn);
    let p = the_player(&s);
    assert_eq!((p.x, p.y), (0, -360_000 + 14_000));
    assert!(!p.player.unwrap().is_enable);
    assert!(p.start_position.is_some());
    assert!(matches!(p.player.unwrap().shoot_type, ShootType::Normal));
}

#[test]
fn entry_animation_rises_then_enables() {
    let mut s = empty_state();
    player_status_system(&mut s, 1000);
    // The operating line sits twelve radii above the bottom edge.
    let threshold = -360_000 + 12 * 14_000;
    let mut steps: u32 = 0;
    while !the_player(&s).player.unwrap().is_enable {
        let before = the_player(&s).y;
        player_start_position(&mut s);
        let p = the_player(&s);
        if p.player.unwrap().is_enable {
            assert!(before >= threshold);
            assert!(p.start_position.is_none());
            assert_eq!(p.y, before);
        } else {
            assert_eq!(p.y, before + 5_000);
        }
        steps += 1;
        assert!(steps < 100, "entry animation did not finish");
    }
}

fn enabled_player_state() -> GameState {
    let mut s = empty_state();
    player_status_system(&mut s, 1000);
    for _ in 0..40 {
        player_start_position(&mut s);
    }
    assert!(the_player(&s).player.unwrap().is_enable);
    s
}

#[test]
fn movement_follows_held_keys_when_enabled() {
    let mut s = enabled_player_state();
    let x0 = the_player(&s).x;
    let y0 = the_player(&s).y;
    let mut input = InputState::none();
    input.right = true;
    input.up = true;
    player_move_system(&mut s, input);
    // Speed is 3 units at multiplier 1.0.
    assert_eq!(the_player(&s).x, x0 + 3_000);
    assert_eq!(the_player(&s).y, y0 + 3_000);
    let mut back = InputState::none();
    back.left = true;
    back.down = true;
    player_move_system(&mut s, back);
    assert_eq!(the_player(&s).x, x0);
    assert_eq!(the_player(&s).y, y0);
}

#[test]
fn movement_is_suppressed_while_disabled() {
    let mut s = empty_state();
    player_status_system(&mut s, 1000);
    let y0 = the_player(&s).y;
    let mut input = InputState::none();
    input.up = true;
    player_move_system(&mut s, input);
    assert_eq!(the_player(&s).y, y0);
}

#[test]
fn shoot_mode_keys_switch_the_selector() {
    let mut s = enabled_player_state();
    let mut input = InputState::none();
    input.select_double = true;
    player_shoot_type(&mut s, input);
    assert!(matches!(the_player(&s).player.unwrap().shoot_type, ShootType::Double));
    let mut input2 = InputState::none();
    input2.select_triple = true;
    player_shoot_type(&mut s, input2);
    assert!(matches!(the_player(&s).player.unwrap().shoot_type, ShootType::Triple));
    let mut input3 = InputState::none();
    input3.select_normal = true;
    player_shoot_type(&mut s, input3);
    assert!(matches!(the_player(&s).player.unwrap().shoot_type, ShootType::Normal));
}

#[test]
fn triple_shoot_spawns_three_exact_projectiles() {
    let mut s = enabled_player_state();
    let mut sel = InputState::none();
    sel.select_triple = true;
    player_shoot_type(&mut s, sel);
    let px = the_player(&s).x;
    let py = the_player(&s).y;
    let before = s.entities.len();
    let mut fire = InputState::none();
    fire.fire = true;
    player_shoot_system(&mut s, fire);
    assert_eq!(s.entities.len(), before + 3);
    let shots: Vec<&Entity> =
        s.entities.iter().filter(|e| e.player_shoot.is_some()).collect();
    assert_eq!(shots.len(), 3);
    // v = base shot speed x multiplier = 3.0; one straight, two diverging
    // offset one player radius left and right at half the speed sideways.
    let v = 3_000;
    assert_eq!((shots[0].x, shots[0].y), (px, py));
    let v0 = shots[0].velocity.unwrap();
    assert_eq!((v0.x, v0.y), (0, v));
    assert_eq!((shots[1].x, shots[1].y), (px - 14_000, py));
    let v1 = shots[1].velocity.unwrap();
    assert_eq!((v1.x, v1.y), (-v / 2, v));
    assert_eq!((shots[2].x, shots[2].y), (px + 14_000, py));
    let v2 = shots[2].velocity.unwrap();
    assert_eq!((v2.x, v2.y), (v / 2, v));
}

#[test]
fn double_shoot_spawns_diverging_pair() {
    let mut s = enabled_player_state();
    let mut sel = InputState::none();
    sel.select_double = true;
    player_shoot_type(&mut s, sel);
    let mut fire = InputState::none();
    fire.fire = true;
    player_shoot_system(&mut s, fire);
    let shots: Vec<&Entity> =
        s.entities.iter().filter(|e| e.player_shoot.is_some()).collect();
    assert_eq!(shots.len(), 2);
    assert_eq!(shots[0].velocity.unwrap().x, -1_500);
    assert_eq!(shots[1].velocity.unwrap().x, 1_500);
}

#[test]
fn no_fire_without_the_edge_or_while_disabled() {
    let mut s = enabled_player_state();
    player_shoot_system(&mut s, InputState::none());
    assert_eq!(s.entities.iter().filter(|e| e.player_shoot.is_some()).count(), 0);

    let mut s2 = empty_state();
    player_status_system(&mut s2, 1000);
    let mut fire = InputState::none();
    fire.fire = true;
    player_shoot_system(&mut s2, fire);
    assert_eq!(s2.entities.iter().filter(|e| e.player_shoot.is_some()).count(), 0);
}
