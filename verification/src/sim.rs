//! Startup and the per-frame pipeline.
//!
//! One frame runs the fixed sequence scheduler, player input, enemy fire,
//! motion patterns, velocity integration, collision resolution, effect
//! bookkeeping and boundary cleanup, in that order; the window clamp runs
//! on its own fixed-rate tick.

use vstd::prelude::*;
use crate::define::{
    EnemySchedule, EnemyScheduleValue, GameState, GameTimer, InputState, PlayerStatus,
    SpeedControl, TrigSample, WindowSizeLimit, state_wf, FIRST_SPAWN_DELAY_MS, GAME_SECOND_MS,
    LIMIT_MAX, PLAYER_RADIUS, SPEED_START,
};
use crate::timer::{Timer, TimerMode, DELTA_MAX_MS};
use crate::enemy::schedule_after;

verus! {

/// The scheduling clock's whole-second reading after one frame's tick.
pub open spec fn clock_after(g: GameTimer, delta: u64) -> u64 {
    if g.timer.spec_tick(delta).just_finished && g.seconds < u64::MAX {
        (g.seconds + 1) as u64
    } else {
        g.seconds
    }
}

/// Trigger seconds of the seven scheduled waves.
pub const WAVE_001_SECONDS: u64 = 5;

pub const WAVE_002_SECONDS: u64 = 15;

pub const WAVE_003_SECONDS: u64 = 30;

pub const WAVE_004_SECONDS: u64 = 45;

pub const WAVE_005_SECONDS: u64 = 60;

pub const WAVE_006_SECONDS: u64 = 75;

pub const WAVE_007_SECONDS: u64 = 90;

impl GameState {
    /// The fresh simulation for a window of the given pixel dimensions
    /// (milli-pixels): half-extents as the field limits, the level script
    /// armed, the first player spawn due after its initial delay.
    pub fn new(width: i64, height: i64) -> (s: GameState)
        requires
            4 * PLAYER_RADIUS <= width <= 2 * LIMIT_MAX,
            4 * PLAYER_RADIUS <= height <= 2 * LIMIT_MAX,
        ensures
            s.limit == (WindowSizeLimit {
                top: (height / 2) as i64,
                bottom: (-(height / 2)) as i64,
                right: (width / 2) as i64,
                left: (-(width / 2)) as i64,
            }),
            s.status == (PlayerStatus {
                is_spawn: true,
                timer: Timer {
                    duration_ms: FIRST_SPAWN_DELAY_MS,
                    elapsed_ms: 0,
                    mode: TimerMode::Once,
                    finished: false,
                    just_finished: false,
                },
                score: 0,
            }),
            s.speed.value == SPEED_START,
            s.game_timer == (GameTimer {
                timer: Timer {
                    duration_ms: GAME_SECOND_MS,
                    elapsed_ms: 0,
                    mode: TimerMode::Repeating,
                    finished: false,
                    just_finished: false,
                },
                seconds: 0,
            }),
            s.schedule.enemy_pattern_001 == (EnemyScheduleValue {
                seconds: WAVE_001_SECONDS,
                enable: true,
            }),
            s.schedule.enemy_pattern_002 == (EnemyScheduleValue {
                seconds: WAVE_002_SECONDS,
                enable: true,
            }),
            s.schedule.enemy_pattern_003 == (EnemyScheduleValue {
                seconds: WAVE_003_SECONDS,
                enable: true,
            }),
            s.schedule.enemy_pattern_004 == (EnemyScheduleValue {
                seconds: WAVE_004_SECONDS,
                enable: true,
            }),
            s.schedule.enemy_pattern_005 == (EnemyScheduleValue {
                seconds: WAVE_005_SECONDS,
                enable: true,
            }),
            s.schedule.enemy_pattern_006 == (EnemyScheduleValue {
                seconds: WAVE_006_SECONDS,
                enable: true,
            }),
            s.schedule.enemy_pattern_007 == (EnemyScheduleValue {
                seconds: WAVE_007_SECONDS,
                enable: true,
            }),
            s.entities@ == Seq::<crate::define::Entity>::empty(),
            s.next_id == 0,
            state_wf(s),
    {
        let half_w = ((width as u64) / 2) as i64;
        let half_h = ((height as u64) / 2) as i64;
        let s = GameState {
            limit: WindowSizeLimit { top: half_h, bottom: -half_h, right: half_w, left: -half_w },
            status: PlayerStatus {
                is_spawn: true,
                timer: Timer::new(FIRST_SPAWN_DELAY_MS, TimerMode::Once),
                score: 0,
            },
            speed: SpeedControl { value: SPEED_START },
            game_timer: GameTimer {
                timer: Timer::new(GAME_SECOND_MS, TimerMode::Repeating),
                seconds: 0,
            },
            schedule: EnemySchedule {
                enemy_pattern_001: EnemyScheduleValue { seconds: WAVE_001_SECONDS, enable: true },
                enemy_pattern_002: EnemyScheduleValue { seconds: WAVE_002_SECONDS, enable: true },
                enemy_pattern_003: EnemyScheduleValue { seconds: WAVE_003_SECONDS, enable: true },
                enemy_pattern_004: EnemyScheduleValue { seconds: WAVE_004_SECONDS, enable: true },
                enemy_pattern_005: EnemyScheduleValue { seconds: WAVE_005_SECONDS, enable: true },
                enemy_pattern_006: EnemyScheduleValue { seconds: WAVE_006_SECONDS, enable: true },
                enemy_pattern_007: EnemyScheduleValue { seconds: WAVE_007_SECONDS, enable: true },
            },
            entities: Vec::new(),
            next_id: 0,
        };
        proof {
            assert(crate::support::count_matching(s.entities@, crate::define::player_pred())
                == 0);
        }
        s
    }
}

/// One tick of the scheduling clock: only the game timer changes, exactly.
pub open spec fn clock_rel(a: GameState, b: GameState, delta: u64) -> bool {
    b == (GameState {
        game_timer: GameTimer {
            timer: a.game_timer.timer.spec_tick(delta),
            seconds: clock_after(a.game_timer, delta),
        },
        ..a
    })
}

/// Advance the one-second scheduling clock; its whole-second counter stops
/// only at the top of its range.
pub fn game_timer_system(s: &mut GameState, delta_ms: u64)
    requires
        state_wf(*old(s)),
        delta_ms <= DELTA_MAX_MS,
    ensures
        state_wf(*final(s)),
        clock_rel(*old(s), *final(s), delta_ms),
{
    let just = s.game_timer.timer.tick(delta_ms);
    if just && s.game_timer.seconds < u64::MAX {
        s.game_timer.seconds = s.game_timer.seconds + 1;
    }
}

/// The tail of a frame from the margin-cleanup stage on.
pub open spec fn frame_from_despawn(c: GameState, b: GameState) -> bool {
    crate::common::despawn_rel(c, b)
}

/// ... from the effect-lifetime stage on.
pub open spec fn frame_from_shoot_bang(c: GameState, b: GameState, delta: u64) -> bool {
    exists|m: GameState|
        #[trigger] crate::common::shoot_bang_rel(c, m, delta) && frame_from_despawn(m, b)
}

/// ... from the marker-conversion stage on.
pub open spec fn frame_from_show_bang(c: GameState, b: GameState, delta: u64) -> bool {
    exists|m: GameState|
        #[trigger] crate::common::show_bang_rel(c, m) && frame_from_shoot_bang(m, b, delta)
}

/// ... from the collision-resolution stage on.
pub open spec fn frame_from_resolve(c: GameState, b: GameState, delta: u64) -> bool {
    exists|m: GameState|
        #[trigger] crate::collision::resolve_rel(c, m) && frame_from_show_bang(m, b, delta)
}

/// ... from the velocity-integration stage on.
pub open spec fn frame_from_auto_move(c: GameState, b: GameState, delta: u64) -> bool {
    exists|m: GameState|
        #[trigger] crate::common::auto_move_rel(c, m) && frame_from_resolve(m, b, delta)
}

/// ... from the motion-pattern stage on.
pub open spec fn frame_from_patterns(c: GameState, b: GameState, trig: TrigSample, delta: u64)
    -> bool {
    exists|m: GameState|
        #[trigger] crate::patterns::patterns_rel(c, m, trig, delta) && frame_from_auto_move(
            m,
            b,
            delta,
        )
}

/// ... from the enemy-fire stage on.
pub open spec fn frame_from_enemy_fire(c: GameState, b: GameState, trig: TrigSample, delta: u64)
    -> bool {
    exists|m: GameState|
        #[trigger] crate::enemy::enemy_shoot_rel(c, m, delta) && frame_from_patterns(
            m,
            b,
            trig,
            delta,
        )
}

/// ... from the player-fire stage on.
pub open spec fn frame_from_player_fire(
    c: GameState,
    b: GameState,
    input: InputState,
    trig: TrigSample,
    delta: u64,
) -> bool {
    exists|m: GameState|
        #[trigger] crate::player::shoot_rel(c, m, input) && frame_from_enemy_fire(
            m,
            b,
            trig,
            delta,
        )
}

/// ... from the player-movement stage on.
pub open spec fn frame_from_move(
    c: GameState,
    b: GameState,
    input: InputState,
    trig: TrigSample,
    delta: u64,
) -> bool {
    exists|m: GameState|
        #[trigger] crate::player::move_rel(c, m, input) && frame_from_player_fire(
            m,
            b,
            input,
            trig,
            delta,
        )
}

/// ... from the speed-control stage on.
pub open spec fn frame_from_speed(
    c: GameState,
    b: GameState,
    input: InputState,
    trig: TrigSample,
    delta: u64,
) -> bool {
    exists|m: GameState|
        #[trigger] crate::common::speed_rel(c, m, input) && frame_from_move(
            m,
            b,
            input,
            trig,
            delta,
        )
}

/// ... from the mode-select stage on.
pub open spec fn frame_from_retype(
    c: GameState,
    b: GameState,
    input: InputState,
    trig: TrigSample,
    delta: u64,
) -> bool {
    exists|m: GameState|
        #[trigger] crate::player::retype_rel(c, m, input) && frame_from_speed(
            m,
            b,
            input,
            trig,
            delta,
        )
}

/// ... from the entry-animation stage on.
pub open spec fn frame_from_entry(
    c: GameState,
    b: GameState,
    input: InputState,
    trig: TrigSample,
    delta: u64,
) -> bool {
    exists|m: GameState|
        #[trigger] crate::player::entry_rel(c, m) && frame_from_retype(m, b, input, trig, delta)
}

/// ... from the respawn stage on.
pub open spec fn frame_from_respawn(
    c: GameState,
    b: GameState,
    input: InputState,
    trig: TrigSample,
    delta: u64,
) -> bool {
    exists|m: GameState|
        #[trigger] crate::player::respawn_rel(c, m, delta) && frame_from_entry(
            m,
            b,
            input,
            trig,
            delta,
        )
}

/// ... from the seventh wave spawner on.
pub open spec fn frame_from_wave_007(
    c: GameState,
    b: GameState,
    input: InputState,
    trig: TrigSample,
    delta: u64,
) -> bool {
    exists|m: GameState|
        #[trigger] crate::enemy::wave_007_rel(c, m) && frame_from_respawn(m, b, input, trig, delta)
}

/// ... from the sixth wave spawner on.
pub open spec fn frame_from_wave_006(
    c: GameState,
    b: GameState,
    input: InputState,
    trig: TrigSample,
    delta: u64,
) -> bool {
    exists|m: GameState|
        #[trigger] crate::enemy::wave_006_rel(c, m) && frame_from_wave_007(m, b, input, trig, delta)
}

/// ... from the fifth wave spawner on.
pub open spec fn frame_from_wave_005(
    c: GameState,
    b: GameState,
    input: InputState,
    trig: TrigSample,
    delta: u64,
) -> bool {
    exists|m: GameState|
        #[trigger] crate::enemy::wave_005_rel(c, m) && frame_from_wave_006(m, b, input, trig, delta)
}

/// ... from the fourth wave spawner on.
pub open spec fn frame_from_wave_004(
    c: GameState,
    b: GameState,
    input: InputState,
    trig: TrigSample,
    delta: u64,
) -> bool {
    exists|m: GameState|
        #[trigger] crate::enemy::wave_004_rel(c, m) && frame_from_wave_005(m, b, input, trig, delta)
}

/// ... from the third wave spawner on.
pub open spec fn frame_from_wave_003(
    c: GameState,
    b: GameState,
    input: InputState,
    trig: TrigSample,
    delta: u64,
) -> bool {
    exists|m: GameState|
        #[trigger] crate::enemy::wave_003_rel(c, m) && frame_from_wave_004(m, b, input, trig, delta)
}

/// ... from the second wave spawner on.
pub open spec fn frame_from_wave_002(
    c: GameState,
    b: GameState,
    input: InputState,
    trig: TrigSample,
    delta: u64,
) -> bool {
    exists|m: GameState|
        #[trigger] crate::enemy::wave_002_rel(c, m) && frame_from_wave_003(m, b, input, trig, delta)
}

/// ... from the first wave spawner on.
pub open spec fn frame_from_wave_001(
    c: GameState,
    b: GameState,
    input: InputState,
    trig: TrigSample,
    delta: u64,
) -> bool {
    exists|m: GameState|
        #[trigger] crate::enemy::wave_001_rel(c, m) && frame_from_wave_002(m, b, input, trig, delta)
}

/// One whole frame as the composition of its stage relations, in pipeline
/// order, with the intermediate states existentially chained: scheduling
/// clock, the seven wave spawners, respawn, entry animation, mode select,
/// speed control, movement, player fire, enemy fire, motion patterns,
/// velocity integration, collision resolution, marker conversion, effect
/// lifetimes, and margin cleanup.
pub open spec fn frame_rel(
    a: GameState,
    b: GameState,
    input: InputState,
    trig: TrigSample,
    delta: u64,
) -> bool {
    exists|m: GameState|
        #[trigger] clock_rel(a, m, delta) && frame_from_wave_001(m, b, input, trig, delta)
}

/// One whole frame of the simulation, in the fixed pipeline order:
/// scheduling clock, the seven wave spawners, player lifecycle and input,
/// enemy fire, motion patterns, velocity integration, collision resolution,
/// effect bookkeeping, and margin cleanup.  The well-formed resting state is
/// preserved; the field limits never change; the scheduling clock and the
/// score never go backwards; and a disarmed wave entry never re-arms.
pub fn frame_tick(s: &mut GameState, input: InputState, trig: TrigSample, delta_ms: u64)
    requires
        state_wf(*old(s)),
        trig.wf(),
        delta_ms <= DELTA_MAX_MS,
    ensures
        state_wf(*final(s)),
        frame_rel(*old(s), *final(s), input, trig, delta_ms),
        final(s).limit == old(s).limit,
        final(s).game_timer.timer == old(s).game_timer.timer.spec_tick(delta_ms),
        final(s).game_timer.seconds == clock_after(old(s).game_timer, delta_ms),
        final(s).speed.value == crate::common::speed_after(old(s).speed.value, input),
        old(s).status.score <= final(s).status.score,
        final(s).schedule.enemy_pattern_001 == schedule_after(
            old(s).schedule.enemy_pattern_001,
            clock_after(old(s).game_timer, delta_ms),
        ),
        final(s).schedule.enemy_pattern_002 == schedule_after(
            old(s).schedule.enemy_pattern_002,
            clock_after(old(s).game_timer, delta_ms),
        ),
        final(s).schedule.enemy_pattern_003 == schedule_after(
            old(s).schedule.enemy_pattern_003,
            clock_after(old(s).game_timer, delta_ms),
        ),
        final(s).schedule.enemy_pattern_004 == schedule_after(
            old(s).schedule.enemy_pattern_004,
            clock_after(old(s).game_timer, delta_ms),
        ),
        final(s).schedule.enemy_pattern_005 == schedule_after(
            old(s).schedule.enemy_pattern_005,
            clock_after(old(s).game_timer, delta_ms),
        ),
        final(s).schedule.enemy_pattern_006 == schedule_after(
            old(s).schedule.enemy_pattern_006,
            clock_after(old(s).game_timer, delta_ms),
        ),
        final(s).schedule.enemy_pattern_007 == schedule_after(
            old(s).schedule.enemy_pattern_007,
            clock_after(old(s).game_timer, delta_ms),
        ),
{
    game_timer_system(s, delta_ms);
    let ghost g1 = *s;
    crate::enemy::enemy_spawn_pattern_001(s);
    let ghost g2 = *s;
    crate::enemy::enemy_spawn_pattern_002(s);
    let ghost g3 = *s;
    crate::enemy::enemy_spawn_pattern_003(s);
    let ghost g4 = *s;
    crate::enemy::enemy_spawn_pattern_004(s);
    let ghost g5 = *s;
    crate::enemy::enemy_spawn_pattern_005(s);
    let ghost g6 = *s;
    crate::enemy::enemy_spawn_pattern_006(s);
    let ghost g7 = *s;
    crate::enemy::enemy_spawn_pattern_007(s);
    let ghost g8 = *s;
    crate::player::player_status_system(s, delta_ms);
    let ghost g9 = *s;
    crate::player::player_start_position(s);
    let ghost g10 = *s;
    crate::player::player_shoot_type(s, input);
    let ghost g11 = *s;
    crate::common::speed_control_system(s, input);
    let ghost g12 = *s;
    crate::player::player_move_system(s, input);
    let ghost g13 = *s;
    crate::player::player_shoot_system(s, input);
    let ghost g14 = *s;
    crate::enemy::enemy_shoot_system(s, delta_ms);
    let ghost g15 = *s;
    crate::patterns::apply_patterns(s, trig, delta_ms);
    let ghost g16 = *s;
    crate::common::auto_move_system(s);
    let ghost g17 = *s;
    proof {
        crate::collision::lemma_rule1_gained_nonneg(g17.entities@, g17.entities@.len() as int);
    }
    crate::collision::resolve_collisions(s);
    let ghost g18 = *s;
    crate::common::show_bang_system(s);
    let ghost g19 = *s;
    crate::common::shoot_bang_system(s, delta_ms);
    let ghost g20 = *s;
    crate::common::auto_despawn_system(s);
    proof {
        assert(frame_from_despawn(g20, *s));
        assert(frame_from_shoot_bang(g19, *s, delta_ms)) by {
            assert(crate::common::shoot_bang_rel(g19, g20, delta_ms));
        }
        assert(frame_from_show_bang(g18, *s, delta_ms)) by {
            assert(crate::common::show_bang_rel(g18, g19));
        }
        assert(frame_from_resolve(g17, *s, delta_ms)) by {
            assert(crate::collision::resolve_rel(g17, g18));
        }
        assert(frame_from_auto_move(g16, *s, delta_ms)) by {
            assert(crate::common::auto_move_rel(g16, g17));
        }
        assert(frame_from_patterns(g15, *s, trig, delta_ms)) by {
            assert(crate::patterns::patterns_rel(g15, g16, trig, delta_ms));
        }
        assert(frame_from_enemy_fire(g14, *s, trig, delta_ms)) by {
            assert(crate::enemy::enemy_shoot_rel(g14, g15, delta_ms));
        }
        assert(frame_from_player_fire(g13, *s, input, trig, delta_ms)) by {
            assert(crate::player::shoot_rel(g13, g14, input));
        }
        assert(frame_from_move(g12, *s, input, trig, delta_ms)) by {
            assert(crate::player::move_rel(g12, g13, input));
        }
        assert(frame_from_speed(g11, *s, input, trig, delta_ms)) by {
            assert(crate::common::speed_rel(g11, g12, input));
        }
        assert(frame_from_retype(g10, *s, input, trig, delta_ms)) by {
            assert(crate::player::retype_rel(g10, g11, input));
        }
        assert(frame_from_entry(g9, *s, input, trig, delta_ms)) by {
            assert(crate::player::entry_rel(g9, g10));
        }
        assert(frame_from_respawn(g8, *s, input, trig, delta_ms)) by {
            assert(crate::player::respawn_rel(g8, g9, delta_ms));
        }
        assert(frame_from_wave_007(g7, *s, input, trig, delta_ms)) by {
            assert(crate::enemy::wave_007_rel(g7, g8));
        }
        assert(frame_from_wave_006(g6, *s, input, trig, delta_ms)) by {
            assert(crate::enemy::wave_006_rel(g6, g7));
        }
        assert(frame_from_wave_005(g5, *s, input, trig, delta_ms)) by {
            assert(crate::enemy::wave_005_rel(g5, g6));
        }
        assert(frame_from_wave_004(g4, *s, input, trig, delta_ms)) by {
            assert(crate::enemy::wave_004_rel(g4, g5));
        }
        assert(frame_from_wave_003(g3, *s, input, trig, delta_ms)) by {
            assert(crate::enemy::wave_003_rel(g3, g4));
        }
        assert(frame_from_wave_002(g2, *s, input, trig, delta_ms)) by {
            assert(crate::enemy::wave_002_rel(g2, g3));
        }
        assert(frame_from_wave_001(g1, *s, input, trig, delta_ms)) by {
            assert(crate::enemy::wave_001_rel(g1, g2));
        }
        assert(frame_rel(*old(s), *s, input, trig, delta_ms)) by {
            assert(clock_rel(*old(s), g1, delta_ms));
        }
    }
}

/// The fixed-rate tick, decoupled from the frame rate: clamp the player
/// into the play field.  The exact result is the `clamped_player` equality
/// of the clamp relation; the bounds below restate where that leaves the
/// player.
pub fn fixed_tick(s: &mut GameState)
    requires
        state_wf(*old(s)),
    ensures
        state_wf(*final(s)),
        crate::common::clamp_rel(*old(s), *final(s)),
        final(s).limit == old(s).limit,
        forall|i: int|
            0 <= i < final(s).entities@.len() && crate::define::is_player(
                #[trigger] final(s).entities@[i],
            ) ==> {
                &&& old(s).limit.left + final(s).entities@[i].radius <= final(s).entities@[i].x
                &&& final(s).entities@[i].x <= old(s).limit.right - final(s).entities@[i].radius
                &&& old(s).limit.bottom + final(s).entities@[i].radius <= final(s).entities@[i].y
                &&& final(s).entities@[i].y <= old(s).limit.top - final(s).entities@[i].radius
            },
{
    crate::common::player_in_window_system(s);
}

} // verus!
