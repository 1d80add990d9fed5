//! The spatial entity model and the shared simulation state.
//!
//! All lengths are `i64` milli-units (one thousandth of a world unit), all
//! durations `u64` milliseconds, the speed multiplier per-mille, and point
//! values milli-points.

use vstd::prelude::*;
use crate::timer::{Timer, TimerMode};

verus! {

// World constants, in milli-units and milliseconds.
pub const WINDOW_SIZE_MARGIN: i64 = 100_000;
pub const PLAYER_RADIUS: i64 = 14_000;
pub const PLAYER_VELOCITY: i64 = 3_000;
pub const ENEMY_RADIUS: i64 = 15_000;
pub const SHOOT_VELOCITY: i64 = 3_000;
pub const SHOOT_RADIUS: i64 = 5_000;
pub const ENEMY_POINT: u64 = 1_000;
pub const EFFECT_RADIUS: i64 = 20_000;
pub const EFFECT_DEPTH: i64 = 1_000;
pub const EFFECT_LIFETIME_MS: u64 = 500;
pub const RESPAWN_DELAY_MS: u64 = 3_000;
pub const FIRST_SPAWN_DELAY_MS: u64 = 1_000;
pub const GAME_SECOND_MS: u64 = 1_000;
pub const ENTRY_STEP: i64 = 5_000;
pub const ENTRY_ALTITUDE_FACTOR: i64 = 12;
pub const PLAYER_DEPTH: i64 = 10_000;
pub const ENEMY_DEPTH: i64 = 9_000;
pub const SPEED_START: u64 = 1_000;
pub const SPEED_CAP: u64 = 1_000_000;
pub const SHOT_INTERVAL_MIN_MS: u64 = 1_000;
pub const SHOT_INTERVAL_MAX_MS: u64 = 3_000;

// Bounds that keep all fixed-point arithmetic far from `i64` overflow.
pub const LIMIT_MAX: i64 = 0x1000_0000;
pub const RADIUS_MAX: i64 = 0x10_0000;
pub const VEL_MAX: i64 = 0x1_0000_0000;
pub const POS_MAX: i64 = 0x1000_0000_0000;
pub const POINT_MAX: u64 = 0x4000_0000;

/// The four play-field edges in world milli-units, fixed at startup.
pub struct WindowSizeLimit {
    pub top: i64,
    pub bottom: i64,
    pub right: i64,
    pub left: i64,
}

impl WindowSizeLimit {
    pub open spec fn wf(self) -> bool {
        &&& -LIMIT_MAX <= self.left
        &&& self.left + 2 * PLAYER_RADIUS <= self.right
        &&& self.right <= LIMIT_MAX
        &&& -LIMIT_MAX <= self.bottom
        &&& self.bottom + 2 * PLAYER_RADIUS <= self.top
        &&& self.top <= LIMIT_MAX
        &&& 0 < self.right
        &&& 0 < self.top
    }

    pub fn new(top: i64, bottom: i64, right: i64, left: i64) -> (w: WindowSizeLimit)
        ensures
            w == (WindowSizeLimit { top, bottom, right, left }),
    {
        WindowSizeLimit { top, bottom, right, left }
    }
}

/// Respawn bookkeeping and the cumulative score (milli-points).
pub struct PlayerStatus {
    /// True while a new player entity is owed once `timer` completes.
    pub is_spawn: bool,
    pub timer: Timer,
    pub score: u64,
}

/// Global multiplier (per-mille) applied to every projectile and player speed.
pub struct SpeedControl {
    pub value: u64,
}

/// One-second repeating tick counter: the scheduling clock for enemy waves.
pub struct GameTimer {
    pub timer: Timer,
    pub seconds: u64,
}

/// Straight-line per-frame displacement in milli-units.
#[derive(Clone, Copy)]
pub struct Velocity {
    pub x: i64,
    pub y: i64,
}

/// How many projectiles one fire press produces, and how they spread.
#[derive(Clone, Copy, PartialEq, Eq, Structural, Debug)]
pub enum ShootType {
    Normal,
    Double,
    Triple,
}

/// Player-only state: input gating and the selected shoot mode.
#[derive(Clone, Copy)]
pub struct Player {
    /// False during the spawn-in animation; gates movement, damage and fire.
    pub is_enable: bool,
    pub shoot_type: ShootType,
}

/// Enemy-only state: its repeating fire timer and its kill reward.
#[derive(Clone, Copy)]
pub struct Enemy {
    pub shoot_interval: Timer,
    pub point: u64,
}

/// Marker: eligible for margin-based boundary cleanup.
#[derive(Clone, Copy)]
pub struct AutoDespawn;

/// Marker: projectile fired by the player.
#[derive(Clone, Copy)]
pub struct FromPlayerShoot;

/// Marker: projectile fired by an enemy.
#[derive(Clone, Copy)]
pub struct FromEnemyShoot;

/// Marker: the player entity is still rising through its entry animation.
#[derive(Clone, Copy)]
pub struct PlayerStartPosition;

/// A transient visual effect counting down to its own removal.
#[derive(Clone, Copy)]
pub struct ShootBang {
    pub timer: Timer,
}

/// A request, recorded by collision resolution, to show an effect at a point.
#[derive(Clone, Copy)]
pub struct ShowBangPoint {
    pub x: i64,
    pub y: i64,
}

/// A cubic Bezier swoop path: four control points in milli-units.
#[derive(Clone, Copy)]
pub struct Curve {
    pub x0: i64,
    pub y0: i64,
    pub x1: i64,
    pub y1: i64,
    pub x2: i64,
    pub y2: i64,
    pub x3: i64,
    pub y3: i64,
}

/// A bounce-and-descend enemy that reached its halt altitude waits this out.
#[derive(Clone, Copy)]
pub struct WaitTimer {
    pub timer: Timer,
}

/// Per-enemy motion pattern and its auxiliary state; `Plain` entities move by
/// velocity integration alone.
#[derive(Clone, Copy)]
pub enum MotionPattern {
    Plain,
    SineLateral,
    RandomWalk,
    TriangleWave { counter: u32 },
    Parabola,
    Orbit { base_y: i64 },
    BounceDescend { wait: Option<WaitTimer> },
    BezierSwoop { curve: Curve },
}

/// One simulated object: a fixed-schema record with optional components.
#[derive(Clone, Copy)]
pub struct Entity {
    pub id: u64,
    pub x: i64,
    pub y: i64,
    /// Render layering only; never used by the physics.
    pub z: i64,
    pub radius: i64,
    pub velocity: Option<Velocity>,
    pub player: Option<Player>,
    pub enemy: Option<Enemy>,
    pub player_shoot: Option<FromPlayerShoot>,
    pub enemy_shoot: Option<FromEnemyShoot>,
    pub auto_despawn: Option<AutoDespawn>,
    pub start_position: Option<PlayerStartPosition>,
    pub bang_point: Option<ShowBangPoint>,
    pub bang: Option<ShootBang>,
    pub pattern: MotionPattern,
}

pub open spec fn is_player(e: Entity) -> bool {
    e.player is Some
}

pub open spec fn is_enemy(e: Entity) -> bool {
    e.enemy is Some
}

pub open spec fn is_player_shoot(e: Entity) -> bool {
    e.player_shoot is Some
}

pub open spec fn is_enemy_shoot(e: Entity) -> bool {
    e.enemy_shoot is Some
}

pub open spec fn is_bang_point(e: Entity) -> bool {
    e.bang_point is Some
}

pub open spec fn is_bang(e: Entity) -> bool {
    e.bang is Some
}

/// How many of the six mutually exclusive roles the entity carries.
pub open spec fn role_count(e: Entity) -> int {
    (if is_player(e) { 1int } else { 0int })
    + (if is_enemy(e) { 1int } else { 0int })
    + (if is_player_shoot(e) { 1int } else { 0int })
    + (if is_enemy_shoot(e) { 1int } else { 0int })
    + (if is_bang_point(e) { 1int } else { 0int })
    + (if is_bang(e) { 1int } else { 0int })
}

pub open spec fn pattern_wf(p: MotionPattern) -> bool {
    match p {
        MotionPattern::Plain => true,
        MotionPattern::SineLateral => true,
        MotionPattern::RandomWalk => true,
        MotionPattern::TriangleWave { counter } => counter < 200,
        MotionPattern::Parabola => true,
        MotionPattern::Orbit { base_y } => -POS_MAX <= base_y <= POS_MAX,
        MotionPattern::BounceDescend { wait } => match wait {
            Some(w) => w.timer.wf() && w.timer.mode == TimerMode::Once,
            None => true,
        },
        MotionPattern::BezierSwoop { curve } => {
            &&& -POS_MAX <= curve.x0 <= POS_MAX
            &&& -POS_MAX <= curve.y0 <= POS_MAX
            &&& -POS_MAX <= curve.x1 <= POS_MAX
            &&& -POS_MAX <= curve.y1 <= POS_MAX
            &&& -POS_MAX <= curve.x2 <= POS_MAX
            &&& -POS_MAX <= curve.y2 <= POS_MAX
            &&& -POS_MAX <= curve.x3 <= POS_MAX
            &&& -POS_MAX <= curve.y3 <= POS_MAX
        },
    }
}

/// Positions within `bound`; velocities within `VEL_MAX`.
pub open spec fn entity_bounded(e: Entity, bound: int) -> bool {
    &&& -bound <= e.x <= bound
    &&& -bound <= e.y <= bound
    &&& match e.velocity {
        Some(v) => -VEL_MAX <= v.x <= VEL_MAX && -VEL_MAX <= v.y <= VEL_MAX,
        None => true,
    }
}

/// Structural well-formedness of one entity, independent of its position.
pub open spec fn entity_wf(e: Entity) -> bool {
    &&& 0 <= e.radius <= RADIUS_MAX
    &&& -POS_MAX <= e.z <= POS_MAX
    &&& role_count(e) == 1
    &&& pattern_wf(e.pattern)
    &&& (!(e.pattern is Plain) ==> is_enemy(e))
    &&& (is_player(e) ==> {
        &&& e.velocity is None
        &&& e.auto_despawn is None
        &&& e.radius >= 1
        &&& (e.start_position is Some ==> !e.player->Some_0.is_enable)
        &&& -POS_MAX <= e.x <= POS_MAX
        &&& -POS_MAX <= e.y <= POS_MAX
    })
    &&& (e.start_position is Some ==> is_player(e))
    &&& (is_enemy(e) ==> {
        &&& e.velocity is Some
        &&& e.auto_despawn is Some
        &&& e.radius >= 1
        &&& e.enemy->Some_0.shoot_interval.wf()
        &&& e.enemy->Some_0.shoot_interval.mode == TimerMode::Repeating
        &&& e.enemy->Some_0.point <= POINT_MAX
    })
    &&& (is_player_shoot(e) ==> {
        &&& e.velocity is Some
        &&& e.auto_despawn is Some
        &&& e.radius >= 1
        &&& e.pattern is Plain
    })
    &&& (is_enemy_shoot(e) ==> {
        &&& e.velocity is Some
        &&& e.auto_despawn is Some
        &&& e.radius >= 1
        &&& e.pattern is Plain
    })
    &&& (is_bang_point(e) ==> {
        &&& e.velocity is None
        &&& e.auto_despawn is Some
        &&& e.pattern is Plain
        &&& e.bang_point->Some_0.x == e.x
        &&& e.bang_point->Some_0.y == e.y
    })
    &&& (is_bang(e) ==> {
        &&& e.velocity is None
        &&& e.auto_despawn is Some
        &&& e.pattern is Plain
        &&& e.bang->Some_0.timer.wf()
        &&& e.bang->Some_0.timer.mode == TimerMode::Once
    })
}

/// When the wave with trigger second `seconds` is still armed.
#[derive(Clone, Copy)]
pub struct EnemyScheduleValue {
    pub seconds: u64,
    pub enable: bool,
}

/// The level script: one armed, fire-once entry per enemy wave.
pub struct EnemySchedule {
    pub enemy_pattern_001: EnemyScheduleValue,
    pub enemy_pattern_002: EnemyScheduleValue,
    pub enemy_pattern_003: EnemyScheduleValue,
    pub enemy_pattern_004: EnemyScheduleValue,
    pub enemy_pattern_005: EnemyScheduleValue,
    pub enemy_pattern_006: EnemyScheduleValue,
    pub enemy_pattern_007: EnemyScheduleValue,
}

/// The whole simulation state, passed to each system once per frame.
pub struct GameState {
    pub limit: WindowSizeLimit,
    pub status: PlayerStatus,
    pub speed: SpeedControl,
    pub game_timer: GameTimer,
    pub schedule: EnemySchedule,
    pub entities: Vec<Entity>,
    pub next_id: u64,
}

/// The next entity identifier; identifiers stop advancing at the top of the
/// `u64` range rather than wrap.
pub open spec fn bump_id(n: u64) -> u64 {
    if n < u64::MAX { (n + 1) as u64 } else { n }
}

/// `bump_id` applied `k` times.
pub open spec fn bump_id_n(n: u64, k: nat) -> u64
    decreases k,
{
    if k == 0 { n } else { bump_id(bump_id_n(n, (k - 1) as nat)) }
}

/// Every entity position within `bound` milli-units of the origin.
pub open spec fn positions_bounded(ents: Seq<Entity>, bound: int) -> bool {
    forall|i: int| 0 <= i < ents.len() ==> entity_bounded(#[trigger] ents[i], bound)
}

/// The player-role predicate, as one shared closure term for counting.
pub open spec fn player_pred() -> spec_fn(Entity) -> bool {
    |e: Entity| is_player(e)
}

/// Structural invariant of the simulation state.
pub open spec fn state_inv(s: GameState) -> bool {
    &&& s.limit.wf()
    &&& s.status.timer.wf()
    &&& s.status.timer.mode == TimerMode::Once
    &&& 1 <= s.speed.value <= SPEED_CAP
    &&& s.game_timer.timer.wf()
    &&& s.game_timer.timer.mode == TimerMode::Repeating
    &&& forall|i: int| 0 <= i < s.entities@.len() ==> entity_wf(#[trigger] s.entities@[i])
    &&& forall|i: int| 0 <= i < s.entities@.len() && is_player(#[trigger] s.entities@[i]) ==> {
        &&& s.limit.left + 2 * s.entities@[i].radius <= s.limit.right
        &&& s.limit.bottom + 2 * s.entities@[i].radius <= s.limit.top
    }
    &&& crate::support::count_matching(s.entities@, player_pred()) <= 1
    &&& (s.status.is_spawn ==> crate::support::count_matching(s.entities@, player_pred()) == 0)
}

/// The resting invariant between frames: structure plus position bounds.
pub open spec fn state_wf(s: GameState) -> bool {
    &&& state_inv(s)
    &&& positions_bounded(s.entities@, POS_MAX as int)
}

/// Key state sampled by the host once per frame.  Movement keys report held
/// state; every other field reports a pressed edge.
#[derive(Clone, Copy)]
pub struct InputState {
    pub up: bool,
    pub down: bool,
    pub left: bool,
    pub right: bool,
    pub fire: bool,
    pub speed_up: bool,
    pub speed_down: bool,
    pub select_normal: bool,
    pub select_double: bool,
    pub select_triple: bool,
}

impl InputState {
    /// No key active.
    pub fn none() -> (r: InputState)
        ensures
            r == (InputState {
                up: false,
                down: false,
                left: false,
                right: false,
                fire: false,
                speed_up: false,
                speed_down: false,
                select_normal: false,
                select_double: false,
                select_triple: false,
            }),
    {
        InputState {
            up: false,
            down: false,
            left: false,
            right: false,
            fire: false,
            speed_up: false,
            speed_down: false,
            select_normal: false,
            select_double: false,
            select_triple: false,
        }
    }
}

/// Per-mille samples of the trigonometric waves that drive the sine-based
/// motion patterns, computed by the host from real elapsed time.
#[derive(Clone, Copy)]
pub struct TrigSample {
    /// sin of the elapsed time in seconds.
    pub sin_elapsed: i64,
    /// cos of the orbit angle.
    pub orbit_cos: i64,
    /// sin of the orbit angle.
    pub orbit_sin: i64,
}

impl TrigSample {
    pub open spec fn wf(self) -> bool {
        &&& -1000 <= self.sin_elapsed <= 1000
        &&& -1000 <= self.orbit_cos <= 1000
        &&& -1000 <= self.orbit_sin <= 1000
    }
}

} // verus!
