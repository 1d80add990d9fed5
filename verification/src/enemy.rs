//! The enemy side of the simulation: the wave schedule (a fixed level
//! script keyed by elapsed whole seconds), the seven scheduled wave
//! spawners, and the per-enemy fire system.

use vstd::prelude::*;
use vstd::pervasive::VecAdditionalExecFns;
use rand::Rng;
use crate::define::{
    AutoDespawn, Enemy, EnemySchedule, EnemyScheduleValue, Entity, FromEnemyShoot, GameState,
    MotionPattern, Curve, entity_bounded, entity_wf, is_enemy, is_player, pattern_wf, player_pred,
    state_wf, bump_id, bump_id_n, ENEMY_DEPTH, ENEMY_POINT, ENEMY_RADIUS, POS_MAX, SHOOT_RADIUS,
    SHOT_INTERVAL_MAX_MS, SHOT_INTERVAL_MIN_MS, VEL_MAX,
};
use crate::timer::{Timer, TimerMode, DELTA_MAX_MS, DURATION_MAX_MS};
use crate::support::{count_matching, lemma_count_congruent, lemma_count_zero, lemma_count_add};

verus! {

/// Relies on `rand::thread_rng` and `rand::Rng::gen_range` over an `i64`
/// range: a uniform draw from `[lo, hi)`.  `gen_range` panics only on an
/// empty range, which the precondition excludes.
#[verifier::external_body]
pub(crate) fn random_i64_in(lo: i64, hi: i64) -> (r: i64)
    requires
        lo < hi,
    ensures
        lo <= r < hi,
{
    rand::thread_rng().gen_range(lo..hi)
}

/// A uniformly random enemy fire interval, in milliseconds.
pub fn get_shoot_duration() -> (ms: u64)
    ensures
        SHOT_INTERVAL_MIN_MS <= ms < SHOT_INTERVAL_MAX_MS,
{
    let r = random_i64_in(1_000, 3_000);
    r as u64
}

/// Whether an armed schedule entry fires at clock reading `t`: its trigger
/// second has been reached or passed.
pub open spec fn schedule_fire(v: EnemyScheduleValue, t: u64) -> bool {
    v.enable && v.seconds <= t
}

/// The entry after one check at clock reading `t`: firing disarms it.
pub open spec fn schedule_after(v: EnemyScheduleValue, t: u64) -> EnemyScheduleValue {
    EnemyScheduleValue { seconds: v.seconds, enable: v.enable && !(v.seconds <= t) }
}

impl EnemySchedule {
    /// One scheduling check: report whether the wave fires now, and disarm
    /// the entry if it does.  The comparison is `<=`, not `==`: a wave whose
    /// boundary frame was skipped still fires on the next evaluation.
    pub fn is_ready(enemy_schedule_value: &mut EnemyScheduleValue, game_time_seconds: u64) -> (r:
        bool)
        ensures
            r == schedule_fire(*old(enemy_schedule_value), game_time_seconds),
            *final(enemy_schedule_value) == schedule_after(
                *old(enemy_schedule_value),
                game_time_seconds,
            ),
    {
        if enemy_schedule_value.enable && enemy_schedule_value.seconds <= game_time_seconds {
            enemy_schedule_value.enable = false;
            return true;
        }
        false
    }
}

/// How often an entry fires over a whole run, modelled as the sequence of
/// clock readings it is checked against.
pub open spec fn fire_count(v: EnemyScheduleValue, ts: Seq<u64>) -> int
    decreases ts.len(),
{
    if ts.len() == 0 {
        0
    } else {
        (if schedule_fire(v, ts[0]) {
            1int
        } else {
            0int
        }) + fire_count(schedule_after(v, ts[0]), ts.drop_first())
    }
}

/// A disarmed entry never fires again.
pub proof fn lemma_disarmed_never_fires(v: EnemyScheduleValue, ts: Seq<u64>)
    requires
        !v.enable,
    ensures
        fire_count(v, ts) == 0,
    decreases ts.len(),
{
    if ts.len() > 0 {
        lemma_disarmed_never_fires(schedule_after(v, ts[0]), ts.drop_first());
    }
}

/// Law: over any sequence of clock readings, a wave entry fires at most
/// once — the disarm flag prevents a second firing whatever the clock does.
pub proof fn lemma_wave_fires_at_most_once(v: EnemyScheduleValue, ts: Seq<u64>)
    ensures
        0 <= fire_count(v, ts) <= 1,
    decreases ts.len(),
{
    if ts.len() > 0 {
        if schedule_fire(v, ts[0]) {
            lemma_disarmed_never_fires(schedule_after(v, ts[0]), ts.drop_first());
        } else {
            lemma_wave_fires_at_most_once(schedule_after(v, ts[0]), ts.drop_first());
        }
    }
}

/// Law: an armed wave entry whose trigger second is reached by some clock
/// reading fires exactly once over the run.
pub proof fn lemma_wave_fires_once(v: EnemyScheduleValue, ts: Seq<u64>)
    requires
        v.enable,
        exists|i: int| 0 <= i < ts.len() && v.seconds <= #[trigger] ts[i],
    ensures
        fire_count(v, ts) == 1,
    decreases ts.len(),
{
    let i = choose|i: int| 0 <= i < ts.len() && v.seconds <= #[trigger] ts[i];
    if schedule_fire(v, ts[0]) {
        lemma_disarmed_never_fires(schedule_after(v, ts[0]), ts.drop_first());
    } else {
        assert(i != 0);
        assert(schedule_after(v, ts[0]) == v);
        assert(0 <= i - 1 < ts.drop_first().len() && v.seconds <= ts.drop_first()[i - 1]);
        lemma_wave_fires_once(v, ts.drop_first());
    }
}

/// A freshly spawned enemy: collidable, auto-despawning, with a repeating
/// fire interval and the standard kill reward.
pub open spec fn enemy_entity(
    id: u64,
    x: i64,
    y: i64,
    vx: i64,
    vy: i64,
    shot_ms: u64,
    pattern: MotionPattern,
) -> Entity {
    Entity {
        id,
        x,
        y,
        z: ENEMY_DEPTH,
        radius: ENEMY_RADIUS,
        velocity: Some(crate::define::Velocity { x: vx, y: vy }),
        player: None,
        enemy: Some(
            Enemy {
                shoot_interval: Timer {
                    duration_ms: shot_ms,
                    elapsed_ms: 0,
                    mode: TimerMode::Repeating,
                    finished: false,
                    just_finished: false,
                },
                point: ENEMY_POINT,
            },
        ),
        player_shoot: None,
        enemy_shoot: None,
        auto_despawn: Some(AutoDespawn),
        start_position: None,
        bang_point: None,
        bang: None,
        pattern,
    }
}

/// Append one enemy to the frame under a fresh identifier.
fn spawn_enemy(s: &mut GameState, x: i64, y: i64, vx: i64, vy: i64, shot_ms: u64,
    pattern: MotionPattern)
    requires
        state_wf(*old(s)),
        -POS_MAX <= x <= POS_MAX,
        -POS_MAX <= y <= POS_MAX,
        -VEL_MAX <= vx <= VEL_MAX,
        -VEL_MAX <= vy <= VEL_MAX,
        1 <= shot_ms <= DURATION_MAX_MS,
        pattern_wf(pattern),
    ensures
        final(s).entities@ == old(s).entities@.push(
            enemy_entity(old(s).next_id, x, y, vx, vy, shot_ms, pattern),
        ),
        final(s).next_id == bump_id(old(s).next_id),
        final(s).limit == old(s).limit,
        final(s).status == old(s).status,
        final(s).speed == old(s).speed,
        final(s).game_timer == old(s).game_timer,
        final(s).schedule == old(s).schedule,
        state_wf(*final(s)),
{
    let id = s.next_id;
    if s.next_id < u64::MAX {
        s.next_id = s.next_id + 1;
    }
    let e = Entity {
        id,
        x,
        y,
        z: ENEMY_DEPTH,
        radius: ENEMY_RADIUS,
        velocity: Some(crate::define::Velocity { x: vx, y: vy }),
        player: None,
        enemy: Some(
            Enemy { shoot_interval: Timer::new(shot_ms, TimerMode::Repeating), point: ENEMY_POINT },
        ),
        player_shoot: None,
        enemy_shoot: None,
        auto_despawn: Some(AutoDespawn),
        start_position: None,
        bang_point: None,
        bang: None,
        pattern,
    };
    s.entities.push(e);
    proof {
        let ents = s.entities@;
        let olds = old(s).entities@;
        assert(ents.drop_last() =~= olds);
        assert forall|k: int| 0 <= k < ents.len() implies entity_wf(#[trigger] ents[k])
            && entity_bounded(ents[k], POS_MAX as int) && (is_player(ents[k]) ==> {
            &&& s.limit.left + 2 * ents[k].radius <= s.limit.right
            &&& s.limit.bottom + 2 * ents[k].radius <= s.limit.top
        }) by {
            if k < olds.len() {
                assert(entity_wf(olds[k]));
                assert(entity_bounded(olds[k], POS_MAX as int));
            }
        }
        assert(count_matching(ents, player_pred()) == count_matching(olds, player_pred()));
    }
}

/// The first wave: a row of five slowly descending enemies across the top,
/// drifting sideways on the sine pattern.
pub open spec fn wave_001_row(limit: crate::define::WindowSizeLimit, id0: u64, ds: Seq<u64>)
    -> Seq<Entity> {
    let y = (limit.top + 30_000) as i64;
    let x = limit.right / 3;
    seq![
        enemy_entity(id0, x as i64, y, 0i64, -500i64, ds[0], MotionPattern::SineLateral),
        enemy_entity(bump_id_n(id0, 1), (2 * x) as i64, y, 0i64, -500i64, ds[1], MotionPattern::SineLateral),
        enemy_entity(bump_id_n(id0, 2), 0i64, y, 0i64, -500i64, ds[2], MotionPattern::SineLateral),
        enemy_entity(bump_id_n(id0, 3), (-x) as i64, y, 0i64, -500i64, ds[3], MotionPattern::SineLateral),
        enemy_entity(bump_id_n(id0, 4), (-2 * x) as i64, y, 0i64, -500i64, ds[4], MotionPattern::SineLateral),
    ]
}

/// Fire the first wave once its trigger second is reached.
pub open spec fn wave_001_rel(a: GameState, b: GameState) -> bool {
    &&& b.limit == a.limit
    &&& b.status == a.status
    &&& b.speed == a.speed
    &&& b.game_timer == a.game_timer
    &&& b.schedule == (crate::define::EnemySchedule {
        enemy_pattern_001: schedule_after(a.schedule.enemy_pattern_001, a.game_timer.seconds),
        ..a.schedule
    })
    &&& (!schedule_fire(a.schedule.enemy_pattern_001, a.game_timer.seconds) ==> {
        b.entities@ == a.entities@ && b.next_id == a.next_id
    })
    &&& (schedule_fire(a.schedule.enemy_pattern_001, a.game_timer.seconds)
        ==> exists|ds: Seq<u64>| {
        &&& ds.len() == 5
        &&& (forall|k: int|
            0 <= k < ds.len() ==> SHOT_INTERVAL_MIN_MS <= #[trigger] ds[k]
                < SHOT_INTERVAL_MAX_MS)
        &&& b.entities@ == a.entities@ + wave_001_row(a.limit, a.next_id, ds)
        &&& b.next_id == bump_id_n(a.next_id, 5)
    })
}

pub fn enemy_spawn_pattern_001(s: &mut GameState)
    requires
        state_wf(*old(s)),
    ensures
        state_wf(*final(s)),
        wave_001_rel(*old(s), *final(s)),
{
    let seconds = s.game_timer.seconds;
    let mut entry = s.schedule.enemy_pattern_001;
    let fired = EnemySchedule::is_ready(&mut entry, seconds);
    s.schedule.enemy_pattern_001 = entry;
    if fired {
        let ghost id0 = s.next_id;
        let y = s.limit.top + 30_000;
        let x = ((s.limit.right as u64) / 3) as i64;
        let d0 = get_shoot_duration();
        spawn_enemy(s, x, y, 0, -500, d0, MotionPattern::SineLateral);
        let d1 = get_shoot_duration();
        spawn_enemy(s, 2 * x, y, 0, -500, d1, MotionPattern::SineLateral);
        let d2 = get_shoot_duration();
        spawn_enemy(s, 0, y, 0, -500, d2, MotionPattern::SineLateral);
        let d3 = get_shoot_duration();
        spawn_enemy(s, -x, y, 0, -500, d3, MotionPattern::SineLateral);
        let d4 = get_shoot_duration();
        spawn_enemy(s, -(2 * x), y, 0, -500, d4, MotionPattern::SineLateral);
        proof {
            let ds = seq![d0, d1, d2, d3, d4];
            assert(bump_id_n(id0, 0) == id0);
            assert(bump_id_n(id0, 1) == bump_id(id0));
            assert(bump_id_n(id0, 2) == bump_id(bump_id_n(id0, 1)));
            assert(bump_id_n(id0, 3) == bump_id(bump_id_n(id0, 2)));
            assert(bump_id_n(id0, 4) == bump_id(bump_id_n(id0, 3)));
            assert(bump_id_n(id0, 5) == bump_id(bump_id_n(id0, 4)));
            assert(s.entities@ =~= old(s).entities@ + wave_001_row(old(s).limit, id0, ds));
            assert({
                &&& ds.len() == 5
                &&& (forall|k: int|
                    0 <= k < ds.len() ==> SHOT_INTERVAL_MIN_MS <= #[trigger] ds[k]
                        < SHOT_INTERVAL_MAX_MS)
                &&& s.entities@ == old(s).entities@ + wave_001_row(
                    old(s).limit,
                    old(s).next_id,
                    ds,
                )
                &&& s.next_id == bump_id_n(old(s).next_id, 5)
            });
        }
    }
}

/// The second wave: one descending enemy that wanders sideways at random.
pub open spec fn wave_002_row(limit: crate::define::WindowSizeLimit, id0: u64, ds: Seq<u64>)
    -> Seq<Entity> {
    let y = (limit.top + 30_000) as i64;
    seq![enemy_entity(id0, 0i64, y, 0i64, -500i64, ds[0], MotionPattern::RandomWalk)]
}

/// Fire wave 002 once its trigger second is reached.
pub open spec fn wave_002_rel(a: GameState, b: GameState) -> bool {
    &&& b.limit == a.limit
    &&& b.status == a.status
    &&& b.speed == a.speed
    &&& b.game_timer == a.game_timer
    &&& b.schedule == (crate::define::EnemySchedule {
        enemy_pattern_002: schedule_after(a.schedule.enemy_pattern_002, a.game_timer.seconds),
        ..a.schedule
    })
    &&& (!schedule_fire(a.schedule.enemy_pattern_002, a.game_timer.seconds) ==> {
        b.entities@ == a.entities@ && b.next_id == a.next_id
    })
    &&& (schedule_fire(a.schedule.enemy_pattern_002, a.game_timer.seconds)
        ==> exists|ds: Seq<u64>| {
        &&& ds.len() == 1
        &&& (forall|k: int|
            0 <= k < ds.len() ==> SHOT_INTERVAL_MIN_MS <= #[trigger] ds[k]
                < SHOT_INTERVAL_MAX_MS)
        &&& b.entities@ == a.entities@ + wave_002_row(a.limit, a.next_id, ds)
        &&& b.next_id == bump_id_n(a.next_id, 1)
    })
}

pub fn enemy_spawn_pattern_002(s: &mut GameState)
    requires
        state_wf(*old(s)),
    ensures
        state_wf(*final(s)),
        wave_002_rel(*old(s), *final(s)),
{
    let seconds = s.game_timer.seconds;
    let mut entry = s.schedule.enemy_pattern_002;
    let fired = EnemySchedule::is_ready(&mut entry, seconds);
    s.schedule.enemy_pattern_002 = entry;
    if fired {
        let ghost id0 = s.next_id;
        let y = s.limit.top + 30_000;
        let d0 = get_shoot_duration();
        spawn_enemy(s, 0, y, 0, -500, d0, MotionPattern::RandomWalk);
        proof {
            let ds = seq![d0];
            assert(bump_id_n(id0, 0) == id0);
            assert(bump_id_n(id0, 1) == bump_id(bump_id_n(id0, 0)));
            assert(s.entities@ =~= old(s).entities@ + wave_002_row(old(s).limit, id0, ds));
            assert({
                &&& ds.len() == 1
                &&& (forall|k: int|
                    0 <= k < ds.len() ==> SHOT_INTERVAL_MIN_MS <= #[trigger] ds[k]
                        < SHOT_INTERVAL_MAX_MS)
                &&& s.entities@ == old(s).entities@ + wave_002_row(
                    old(s).limit,
                    old(s).next_id,
                    ds,
                )
                &&& s.next_id == bump_id_n(old(s).next_id, 1)
            });
        }
    }
}

/// The third wave: two enemies entering from either side of the centre,
/// descending along the parabolic path; both share one fire interval.
pub open spec fn wave_003_row(limit: crate::define::WindowSizeLimit, id0: u64, ds: Seq<u64>)
    -> Seq<Entity> {
    seq![
        enemy_entity(id0, 40_000i64, (limit.top + 30_000) as i64, -200i64, 0i64, ds[0], MotionPattern::Parabola),
        enemy_entity(bump_id_n(id0, 1), -40_000i64, (limit.top + 50_000) as i64, 200i64, 0i64, ds[0], MotionPattern::Parabola),
    ]
}

/// Fire wave 003 once its trigger second is reached.
pub open spec fn wave_003_rel(a: GameState, b: GameState) -> bool {
    &&& b.limit == a.limit
    &&& b.status == a.status
    &&& b.speed == a.speed
    &&& b.game_timer == a.game_timer
    &&& b.schedule == (crate::define::EnemySchedule {
        enemy_pattern_003: schedule_after(a.schedule.enemy_pattern_003, a.game_timer.seconds),
        ..a.schedule
    })
    &&& (!schedule_fire(a.schedule.enemy_pattern_003, a.game_timer.seconds) ==> {
        b.entities@ == a.entities@ && b.next_id == a.next_id
    })
    &&& (schedule_fire(a.schedule.enemy_pattern_003, a.game_timer.seconds)
        ==> exists|ds: Seq<u64>| {
        &&& ds.len() == 1
        &&& (forall|k: int|
            0 <= k < ds.len() ==> SHOT_INTERVAL_MIN_MS <= #[trigger] ds[k]
                < SHOT_INTERVAL_MAX_MS)
        &&& b.entities@ == a.entities@ + wave_003_row(a.limit, a.next_id, ds)
        &&& b.next_id == bump_id_n(a.next_id, 2)
    })
}

pub fn enemy_spawn_pattern_003(s: &mut GameState)
    requires
        state_wf(*old(s)),
    ensures
        state_wf(*final(s)),
        wave_003_rel(*old(s), *final(s)),
{
    let seconds = s.game_timer.seconds;
    let mut entry = s.schedule.enemy_pattern_003;
    let fired = EnemySchedule::is_ready(&mut entry, seconds);
    s.schedule.enemy_pattern_003 = entry;
    if fired {
        let ghost id0 = s.next_id;
        let d0 = get_shoot_duration();
        let y0 = s.limit.top + 30_000;
        spawn_enemy(s, 40_000, y0, -200, 0, d0, MotionPattern::Parabola);
        let y1 = s.limit.top + 50_000;
        spawn_enemy(s, -40_000, y1, 200, 0, d0, MotionPattern::Parabola);
        proof {
            let ds = seq![d0];
            assert(bump_id_n(id0, 0) == id0);
            assert(bump_id_n(id0, 1) == bump_id(bump_id_n(id0, 0)));
            assert(bump_id_n(id0, 2) == bump_id(bump_id_n(id0, 1)));
            assert(s.entities@ =~= old(s).entities@ + wave_003_row(old(s).limit, id0, ds));
            assert({
                &&& ds.len() == 1
                &&& (forall|k: int|
                    0 <= k < ds.len() ==> SHOT_INTERVAL_MIN_MS <= #[trigger] ds[k]
                        < SHOT_INTERVAL_MAX_MS)
                &&& s.entities@ == old(s).entities@ + wave_003_row(
                    old(s).limit,
                    old(s).next_id,
                    ds,
                )
                &&& s.next_id == bump_id_n(old(s).next_id, 2)
            });
        }
    }
}

/// The fourth wave: one enemy orbiting a slowly descending anchor.
pub open spec fn wave_004_row(limit: crate::define::WindowSizeLimit, id0: u64, ds: Seq<u64>)
    -> Seq<Entity> {
    let y = (limit.top + 30_000) as i64;
    seq![
        enemy_entity(id0, 0i64, y, 0i64, -500i64, ds[0], MotionPattern::Orbit { base_y: y }),
    ]
}

/// Fire wave 004 once its trigger second is reached.
pub open spec fn wave_004_rel(a: GameState, b: GameState) -> bool {
    &&& b.limit == a.limit
    &&& b.status == a.status
    &&& b.speed == a.speed
    &&& b.game_timer == a.game_timer
    &&& b.schedule == (crate::define::EnemySchedule {
        enemy_pattern_004: schedule_after(a.schedule.enemy_pattern_004, a.game_timer.seconds),
        ..a.schedule
    })
    &&& (!schedule_fire(a.schedule.enemy_pattern_004, a.game_timer.seconds) ==> {
        b.entities@ == a.entities@ && b.next_id == a.next_id
    })
    &&& (schedule_fire(a.schedule.enemy_pattern_004, a.game_timer.seconds)
        ==> exists|ds: Seq<u64>| {
        &&& ds.len() == 1
        &&& (forall|k: int|
            0 <= k < ds.len() ==> SHOT_INTERVAL_MIN_MS <= #[trigger] ds[k]
                < SHOT_INTERVAL_MAX_MS)
        &&& b.entities@ == a.entities@ + wave_004_row(a.limit, a.next_id, ds)
        &&& b.next_id == bump_id_n(a.next_id, 1)
    })
}

pub fn enemy_spawn_pattern_004(s: &mut GameState)
    requires
        state_wf(*old(s)),
    ensures
        state_wf(*final(s)),
        wave_004_rel(*old(s), *final(s)),
{
    let seconds = s.game_timer.seconds;
    let mut entry = s.schedule.enemy_pattern_004;
    let fired = EnemySchedule::is_ready(&mut entry, seconds);
    s.schedule.enemy_pattern_004 = entry;
    if fired {
        let ghost id0 = s.next_id;
        let y = s.limit.top + 30_000;
        let d0 = get_shoot_duration();
        spawn_enemy(s, 0, y, 0, -500, d0, MotionPattern::Orbit { base_y: y });
        proof {
            let ds = seq![d0];
            assert(bump_id_n(id0, 0) == id0);
            assert(bump_id_n(id0, 1) == bump_id(bump_id_n(id0, 0)));
            assert(s.entities@ =~= old(s).entities@ + wave_004_row(old(s).limit, id0, ds));
            assert({
                &&& ds.len() == 1
                &&& (forall|k: int|
                    0 <= k < ds.len() ==> SHOT_INTERVAL_MIN_MS <= #[trigger] ds[k]
                        < SHOT_INTERVAL_MAX_MS)
                &&& s.entities@ == old(s).entities@ + wave_004_row(
                    old(s).limit,
                    old(s).next_id,
                    ds,
                )
                &&& s.next_id == bump_id_n(old(s).next_id, 1)
            });
        }
    }
}

/// The fifth wave: five enemies sweeping in from alternating sides at
/// staggered heights, on the triangle-wave lateral pattern.
pub open spec fn wave_005_row(limit: crate::define::WindowSizeLimit, id0: u64, ds: Seq<u64>)
    -> Seq<Entity> {
    let xl = (limit.left - 50_000) as i64;
    let xr = (limit.right + 50_000) as i64;
    seq![
        enemy_entity(id0, xl, -200_000i64, 500i64, 0i64, ds[0], MotionPattern::TriangleWave { counter: 0u32 }),
        enemy_entity(bump_id_n(id0, 1), xr, -100_000i64, -500i64, 0i64, ds[1], MotionPattern::TriangleWave { counter: 0u32 }),
        enemy_entity(bump_id_n(id0, 2), xl, 0i64, 500i64, 0i64, ds[2], MotionPattern::TriangleWave { counter: 0u32 }),
        enemy_entity(bump_id_n(id0, 3), xr, 100_000i64, -500i64, 0i64, ds[3], MotionPattern::TriangleWave { counter: 0u32 }),
        enemy_entity(bump_id_n(id0, 4), xl, 200_000i64, 500i64, 0i64, ds[4], MotionPattern::TriangleWave { counter: 0u32 }),
    ]
}

/// Fire wave 005 once its trigger second is reached.
pub open spec fn wave_005_rel(a: GameState, b: GameState) -> bool {
    &&& b.limit == a.limit
    &&& b.status == a.status
    &&& b.speed == a.speed
    &&& b.game_timer == a.game_timer
    &&& b.schedule == (crate::define::EnemySchedule {
        enemy_pattern_005: schedule_after(a.schedule.enemy_pattern_005, a.game_timer.seconds),
        ..a.schedule
    })
    &&& (!schedule_fire(a.schedule.enemy_pattern_005, a.game_timer.seconds) ==> {
        b.entities@ == a.entities@ && b.next_id == a.next_id
    })
    &&& (schedule_fire(a.schedule.enemy_pattern_005, a.game_timer.seconds)
        ==> exists|ds: Seq<u64>| {
        &&& ds.len() == 5
        &&& (forall|k: int|
            0 <= k < ds.len() ==> SHOT_INTERVAL_MIN_MS <= #[trigger] ds[k]
                < SHOT_INTERVAL_MAX_MS)
        &&& b.entities@ == a.entities@ + wave_005_row(a.limit, a.next_id, ds)
        &&& b.next_id == bump_id_n(a.next_id, 5)
    })
}

pub fn enemy_spawn_pattern_005(s: &mut GameState)
    requires
        state_wf(*old(s)),
    ensures
        state_wf(*final(s)),
        wave_005_rel(*old(s), *final(s)),
{
    let seconds = s.game_timer.seconds;
    let mut entry = s.schedule.enemy_pattern_005;
    let fired = EnemySchedule::is_ready(&mut entry, seconds);
    s.schedule.enemy_pattern_005 = entry;
    if fired {
        let ghost id0 = s.next_id;
        let xl = s.limit.left - 50_000;
        let xr = s.limit.right + 50_000;
        let d0 = get_shoot_duration();
        spawn_enemy(s, xl, -200_000, 500, 0, d0, MotionPattern::TriangleWave { counter: 0 });
        let d1 = get_shoot_duration();
        spawn_enemy(s, xr, -100_000, -500, 0, d1, MotionPattern::TriangleWave { counter: 0 });
        let d2 = get_shoot_duration();
        spawn_enemy(s, xl, 0, 500, 0, d2, MotionPattern::TriangleWave { counter: 0 });
        let d3 = get_shoot_duration();
        spawn_enemy(s, xr, 100_000, -500, 0, d3, MotionPattern::TriangleWave { counter: 0 });
        let d4 = get_shoot_duration();
        spawn_enemy(s, xl, 200_000, 500, 0, d4, MotionPattern::TriangleWave { counter: 0 });
        proof {
            let ds = seq![d0, d1, d2, d3, d4];
            assert(bump_id_n(id0, 0) == id0);
            assert(bump_id_n(id0, 1) == bump_id(bump_id_n(id0, 0)));
            assert(bump_id_n(id0, 2) == bump_id(bump_id_n(id0, 1)));
            assert(bump_id_n(id0, 3) == bump_id(bump_id_n(id0, 2)));
            assert(bump_id_n(id0, 4) == bump_id(bump_id_n(id0, 3)));
            assert(bump_id_n(id0, 5) == bump_id(bump_id_n(id0, 4)));
            assert(s.entities@ =~= old(s).entities@ + wave_005_row(old(s).limit, id0, ds));
            assert({
                &&& ds.len() == 5
                &&& (forall|k: int|
                    0 <= k < ds.len() ==> SHOT_INTERVAL_MIN_MS <= #[trigger] ds[k]
                        < SHOT_INTERVAL_MAX_MS)
                &&& s.entities@ == old(s).entities@ + wave_005_row(
                    old(s).limit,
                    old(s).next_id,
                    ds,
                )
                &&& s.next_id == bump_id_n(old(s).next_id, 5)
            });
        }
    }
}

/// The sixth wave: two fast droppers that halt at the bounce altitude,
/// wait, and resume diagonally away from the centre.
pub open spec fn wave_006_row(limit: crate::define::WindowSizeLimit, id0: u64, ds: Seq<u64>)
    -> Seq<Entity> {
    let y = (limit.top + 30_000) as i64;
    seq![
        enemy_entity(id0, 80_000i64, y, 0i64, -2000i64, ds[0], MotionPattern::BounceDescend { wait: None }),
        enemy_entity(bump_id_n(id0, 1), -80_000i64, y, 0i64, -2000i64, ds[1], MotionPattern::BounceDescend { wait: None }),
    ]
}

/// Fire wave 006 once its trigger second is reached.
pub open spec fn wave_006_rel(a: GameState, b: GameState) -> bool {
    &&& b.limit == a.limit
    &&& b.status == a.status
    &&& b.speed == a.speed
    &&& b.game_timer == a.game_timer
    &&& b.schedule == (crate::define::EnemySchedule {
        enemy_pattern_006: schedule_after(a.schedule.enemy_pattern_006, a.game_timer.seconds),
        ..a.schedule
    })
    &&& (!schedule_fire(a.schedule.enemy_pattern_006, a.game_timer.seconds) ==> {
        b.entities@ == a.entities@ && b.next_id == a.next_id
    })
    &&& (schedule_fire(a.schedule.enemy_pattern_006, a.game_timer.seconds)
        ==> exists|ds: Seq<u64>| {
        &&& ds.len() == 2
        &&& (forall|k: int|
            0 <= k < ds.len() ==> SHOT_INTERVAL_MIN_MS <= #[trigger] ds[k]
                < SHOT_INTERVAL_MAX_MS)
        &&& b.entities@ == a.entities@ + wave_006_row(a.limit, a.next_id, ds)
        &&& b.next_id == bump_id_n(a.next_id, 2)
    })
}

pub fn enemy_spawn_pattern_006(s: &mut GameState)
    requires
        state_wf(*old(s)),
    ensures
        state_wf(*final(s)),
        wave_006_rel(*old(s), *final(s)),
{
    let seconds = s.game_timer.seconds;
    let mut entry = s.schedule.enemy_pattern_006;
    let fired = EnemySchedule::is_ready(&mut entry, seconds);
    s.schedule.enemy_pattern_006 = entry;
    if fired {
        let ghost id0 = s.next_id;
        let y = s.limit.top + 30_000;
        let d0 = get_shoot_duration();
        spawn_enemy(s, 80_000, y, 0, -2000, d0, MotionPattern::BounceDescend { wait: None });
        let d1 = get_shoot_duration();
        spawn_enemy(s, -80_000, y, 0, -2000, d1, MotionPattern::BounceDescend { wait: None });
        proof {
            let ds = seq![d0, d1];
            assert(bump_id_n(id0, 0) == id0);
            assert(bump_id_n(id0, 1) == bump_id(bump_id_n(id0, 0)));
            assert(bump_id_n(id0, 2) == bump_id(bump_id_n(id0, 1)));
            assert(s.entities@ =~= old(s).entities@ + wave_006_row(old(s).limit, id0, ds));
            assert({
                &&& ds.len() == 2
                &&& (forall|k: int|
                    0 <= k < ds.len() ==> SHOT_INTERVAL_MIN_MS <= #[trigger] ds[k]
                        < SHOT_INTERVAL_MAX_MS)
                &&& s.entities@ == old(s).entities@ + wave_006_row(
                    old(s).limit,
                    old(s).next_id,
                    ds,
                )
                &&& s.next_id == bump_id_n(old(s).next_id, 2)
            });
        }
    }
}

/// The seventh wave: one enemy traversing a fixed cubic Bezier swoop,
/// back and forth as the drive parameter oscillates.
pub open spec fn wave_007_row(limit: crate::define::WindowSizeLimit, id0: u64, ds: Seq<u64>)
    -> Seq<Entity> {
    let x = limit.right + 2 * ENEMY_RADIUS;
    seq![
        enemy_entity(id0, (-x) as i64, 0i64, 0i64, 0i64, ds[0], MotionPattern::BezierSwoop {
            curve: Curve {
                x0: (-x) as i64,
                y0: 0i64,
                x1: (2 * x) as i64,
                y1: 240_000i64,
                x2: (-2 * x) as i64,
                y2: 240_000i64,
                x3: x as i64,
                y3: 0i64,
            },
        }),
    ]
}

/// Fire wave 007 once its trigger second is reached.
pub open spec fn wave_007_rel(a: GameState, b: GameState) -> bool {
    &&& b.limit == a.limit
    &&& b.status == a.status
    &&& b.speed == a.speed
    &&& b.game_timer == a.game_timer
    &&& b.schedule == (crate::define::EnemySchedule {
        enemy_pattern_007: schedule_after(a.schedule.enemy_pattern_007, a.game_timer.seconds),
        ..a.schedule
    })
    &&& (!schedule_fire(a.schedule.enemy_pattern_007, a.game_timer.seconds) ==> {
        b.entities@ == a.entities@ && b.next_id == a.next_id
    })
    &&& (schedule_fire(a.schedule.enemy_pattern_007, a.game_timer.seconds)
        ==> exists|ds: Seq<u64>| {
        &&& ds.len() == 1
        &&& (forall|k: int|
            0 <= k < ds.len() ==> SHOT_INTERVAL_MIN_MS <= #[trigger] ds[k]
                < SHOT_INTERVAL_MAX_MS)
        &&& b.entities@ == a.entities@ + wave_007_row(a.limit, a.next_id, ds)
        &&& b.next_id == bump_id_n(a.next_id, 1)
    })
}

pub fn enemy_spawn_pattern_007(s: &mut GameState)
    requires
        state_wf(*old(s)),
    ensures
        state_wf(*final(s)),
        wave_007_rel(*old(s), *final(s)),
{
    let seconds = s.game_timer.seconds;
    let mut entry = s.schedule.enemy_pattern_007;
    let fired = EnemySchedule::is_ready(&mut entry, seconds);
    s.schedule.enemy_pattern_007 = entry;
    if fired {
        let ghost id0 = s.next_id;
        let x = s.limit.right + 2 * ENEMY_RADIUS;
        let curve = Curve {
            x0: -x,
            y0: 0,
            x1: 2 * x,
            y1: 240_000,
            x2: -(2 * x),
            y2: 240_000,
            x3: x,
            y3: 0,
        };
        let d0 = get_shoot_duration();
        spawn_enemy(s, -x, 0, 0, 0, d0, MotionPattern::BezierSwoop { curve });
        proof {
            let ds = seq![d0];
            assert(bump_id_n(id0, 0) == id0);
            assert(bump_id_n(id0, 1) == bump_id(bump_id_n(id0, 0)));
            assert(s.entities@ =~= old(s).entities@ + wave_007_row(old(s).limit, id0, ds));
            assert({
                &&& ds.len() == 1
                &&& (forall|k: int|
                    0 <= k < ds.len() ==> SHOT_INTERVAL_MIN_MS <= #[trigger] ds[k]
                        < SHOT_INTERVAL_MAX_MS)
                &&& s.entities@ == old(s).entities@ + wave_007_row(
                    old(s).limit,
                    old(s).next_id,
                    ds,
                )
                &&& s.next_id == bump_id_n(old(s).next_id, 1)
            });
        }
    }
}

/// An enemy whose fire timer completes on this frame's tick.
pub open spec fn enemy_fires(delta: u64) -> spec_fn(Entity) -> bool {
    |e: Entity| is_enemy(e) && e.enemy->Some_0.shoot_interval.spec_tick(delta).just_finished
}

/// The entity with its fire timer advanced (identity for non-enemies).
pub open spec fn enemy_ticked(e: Entity, delta: u64) -> Entity {
    if is_enemy(e) {
        Entity {
            enemy: Some(
                Enemy {
                    shoot_interval: e.enemy->Some_0.shoot_interval.spec_tick(delta),
                    point: e.enemy->Some_0.point,
                },
            ),
            ..e
        }
    } else {
        e
    }
}

/// A projectile fired by an enemy: straight down at the scaled shot speed.
pub open spec fn enemy_shot_entity(x: i64, y: i64, vy: i64, id: u64) -> Entity {
    Entity {
        id,
        x,
        y,
        z: 0,
        radius: SHOOT_RADIUS,
        velocity: Some(crate::define::Velocity { x: 0, y: vy }),
        player: None,
        enemy: None,
        player_shoot: None,
        enemy_shoot: Some(FromEnemyShoot),
        auto_despawn: Some(AutoDespawn),
        start_position: None,
        bang_point: None,
        bang: None,
        pattern: MotionPattern::Plain,
    }
}

/// Advance every enemy's fire timer; each enemy whose timer just completed
/// fires one projectile from its position, straight down, at the base shot
/// speed scaled by the global multiplier.
pub open spec fn enemy_shoot_rel(a: GameState, b: GameState, delta: u64) -> bool {
    &&& b.limit == a.limit
    &&& b.status == a.status
    &&& b.speed == a.speed
    &&& b.game_timer == a.game_timer
    &&& b.schedule == a.schedule
    &&& b.entities@.len() == a.entities@.len() + crate::support::seq_keep(
        a.entities@,
        enemy_fires(delta),
    ).len()
    &&& forall|i: int|
        0 <= i < a.entities@.len() ==> b.entities@[i] == enemy_ticked(
            #[trigger] a.entities@[i],
            delta,
        )
    &&& forall|k: int|
        0 <= k < crate::support::seq_keep(a.entities@, enemy_fires(delta)).len()
            ==> b.entities@[a.entities@.len() + k] == enemy_shot_entity(
            #[trigger] crate::support::seq_keep(a.entities@, enemy_fires(delta))[k].x,
            crate::support::seq_keep(a.entities@, enemy_fires(delta))[k].y,
            (-(3 * a.speed.value)) as i64,
            bump_id_n(a.next_id, k as nat),
        )
    &&& b.next_id == bump_id_n(
        a.next_id,
        crate::support::seq_keep(a.entities@, enemy_fires(delta)).len() as nat,
    )
}

pub fn enemy_shoot_system(s: &mut GameState, delta_ms: u64)
    requires
        state_wf(*old(s)),
        delta_ms <= DELTA_MAX_MS,
    ensures
        state_wf(*final(s)),
        enemy_shoot_rel(*old(s), *final(s), delta_ms),
{
    let ghost fire_p = enemy_fires(delta_ms);
    let ghost id0 = s.next_id;
    let vy = -((3 * s.speed.value) as i64);
    let n = s.entities.len();
    let mut shots: Vec<Entity> = Vec::new();
    let mut i: usize = 0;
    while i < n
        invariant
            state_wf(*old(s)),
            delta_ms <= DELTA_MAX_MS,
            n == s.entities@.len(),
            n == old(s).entities@.len(),
            i <= n,
            fire_p == enemy_fires(delta_ms),
            id0 == old(s).next_id,
            vy == (-(3 * old(s).speed.value)) as i64,
            s.limit == old(s).limit,
            s.status == old(s).status,
            s.speed == old(s).speed,
            s.game_timer == old(s).game_timer,
            s.schedule == old(s).schedule,
            forall|k: int|
                0 <= k < i ==> s.entities@[k] == enemy_ticked(
                    #[trigger] old(s).entities@[k],
                    delta_ms,
                ),
            forall|k: int| i <= k < n ==> s.entities@[k] == #[trigger] old(s).entities@[k],
            forall|k: int| 0 <= k < i ==> entity_wf(#[trigger] s.entities@[k]),
            shots@.len() == crate::support::seq_keep(old(s).entities@.take(i as int), fire_p).len(),
            forall|k: int|
                0 <= k < shots@.len() ==> shots@[k] == enemy_shot_entity(
                    #[trigger] crate::support::seq_keep(
                        old(s).entities@.take(i as int),
                        fire_p,
                    )[k].x,
                    crate::support::seq_keep(old(s).entities@.take(i as int), fire_p)[k].y,
                    (-(3 * old(s).speed.value)) as i64,
                    bump_id_n(id0, k as nat),
                ),
            s.next_id == bump_id_n(id0, shots@.len() as nat),
        decreases n - i,
    {
        proof {
            assert(entity_wf(old(s).entities@[i as int]));
            assert(entity_bounded(old(s).entities@[i as int], POS_MAX as int));
            crate::support::lemma_seq_keep_step(old(s).entities@, fire_p, i as int);
            assert(old(s).entities@.take(i as int + 1).take(i as int) =~= old(s).entities@.take(
                i as int,
            ));
        }
        let mut e = s.entities[i];
        match e.enemy {
            Some(en) => {
                let mut t = en.shoot_interval;
                let just = t.tick(delta_ms);
                e.enemy = Some(Enemy { shoot_interval: t, point: en.point });
                s.entities.set(i, e);
                if just {
                    let id = s.next_id;
                    if s.next_id < u64::MAX {
                        s.next_id = s.next_id + 1;
                    }
                    let shot = Entity {
                        id,
                        x: e.x,
                        y: e.y,
                        z: 0,
                        radius: SHOOT_RADIUS,
                        velocity: Some(crate::define::Velocity { x: 0, y: vy }),
                        player: None,
                        enemy: None,
                        player_shoot: None,
                        enemy_shoot: Some(FromEnemyShoot),
                        auto_despawn: Some(AutoDespawn),
                        start_position: None,
                        bang_point: None,
                        bang: None,
                        pattern: MotionPattern::Plain,
                    };
                    shots.push(shot);
                    proof {
                        assert(bump_id_n(id0, shots@.len() as nat) == bump_id(
                            bump_id_n(id0, (shots@.len() - 1) as nat),
                        ));
                    }
                }
            },
            None => {
            },
        }
        i = i + 1;
    }
    proof {
        assert(old(s).entities@.take(n as int) =~= old(s).entities@);
    }
    let ghost ticked = s.entities@;
    let ghost fired = crate::support::seq_keep(old(s).entities@, fire_p);
    let m = shots.len();
    let mut j: usize = 0;
    while j < m
        invariant
            j <= m,
            m == shots@.len(),
            s.entities@.len() == ticked.len() + j,
            forall|k: int| 0 <= k < ticked.len() ==> s.entities@[k] == #[trigger] ticked[k],
            forall|k: int|
                0 <= k < j ==> s.entities@[ticked.len() + k] == #[trigger] shots@[k],
            s.limit == old(s).limit,
            s.status == old(s).status,
            s.speed == old(s).speed,
            s.game_timer == old(s).game_timer,
            s.schedule == old(s).schedule,
            s.next_id == bump_id_n(old(s).next_id, m as nat),
        decreases m - j,
    {
        let shot = shots[j];
        s.entities.push(shot);
        j = j + 1;
    }
    proof {
        let ents = s.entities@;
        assert forall|k: int| 0 <= k < ents.len() implies entity_wf(#[trigger] ents[k])
            && entity_bounded(ents[k], POS_MAX as int) && (is_player(ents[k]) ==> {
            &&& s.limit.left + 2 * ents[k].radius <= s.limit.right
            &&& s.limit.bottom + 2 * ents[k].radius <= s.limit.top
        }) by {
            if k < ticked.len() {
                assert(ents[k] == enemy_ticked(old(s).entities@[k], delta_ms));
                assert(entity_wf(old(s).entities@[k]));
                assert(entity_bounded(old(s).entities@[k], POS_MAX as int));
                if is_player(old(s).entities@[k]) {
                    assert(old(s).limit.left + 2 * old(s).entities@[k].radius <= old(
                        s,
                    ).limit.right);
                    assert(old(s).limit.bottom + 2 * old(s).entities@[k].radius <= old(
                        s,
                    ).limit.top);
                }
            } else {
                let k2 = k - ticked.len();
                assert(ents[k] == shots@[k2]);
                let j3 = crate::support::lemma_seq_keep_elem(old(s).entities@, fire_p, k2);
                assert(entity_bounded(old(s).entities@[j3], POS_MAX as int));
                assert(3 * old(s).speed.value <= 3_000_000);
            }
        }
        let spawned = ents.skip(ticked.len() as int);
        assert(ents =~= ticked + spawned);
        assert forall|k: int| 0 <= k < spawned.len() implies !player_pred()(
            #[trigger] spawned[k],
        ) by {
            assert(spawned[k] == ents[ticked.len() + k]);
            assert(ents[ticked.len() + k] == shots@[k]);
            let q = crate::support::seq_keep(old(s).entities@.take(n as int), fire_p)[k];
            assert(shots@[k] == enemy_shot_entity(
                q.x,
                q.y,
                (-(3 * old(s).speed.value)) as i64,
                bump_id_n(id0, k as nat),
            ));
        }
        lemma_count_zero(spawned, player_pred());
        lemma_count_add(ticked, spawned, player_pred());
        lemma_count_congruent(ticked, old(s).entities@, player_pred());
        if s.status.is_spawn {
            crate::support::lemma_count_nonneg(ents, player_pred());
        }
    }
}

} // verus!
