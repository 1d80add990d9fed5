//! The library of parametric enemy motion patterns, one step per frame.
//!
//! Each pattern computes a velocity or position override for its enemy from
//! the per-frame trigonometric samples, the frame delta and its own state.
//! Every computed coordinate saturates at the representable world range and
//! every computed velocity at the velocity range; inside the play field both
//! saturations are no-ops.

use vstd::prelude::*;
use vstd::pervasive::VecAdditionalExecFns;
use crate::define::{
    Entity, GameState, MotionPattern, TrigSample, Velocity, WaitTimer, entity_bounded, entity_wf,
    is_player, player_pred, state_wf, POS_MAX, VEL_MAX,
};
use crate::timer::{Timer, TimerMode, DELTA_MAX_MS};
use crate::common::clamp_i64;
use crate::support::lemma_count_congruent;
use crate::enemy::random_i64_in;

verus! {

/// Amplitude of the sine drift, in milli-units per frame (about pi).
pub const SINE_AMPLITUDE: i64 = 3_142;

/// Half-width of the random-walk lateral velocity range, milli-units.
pub const RANDOM_WALK_RANGE: i64 = 10_000;

/// Frames per full triangle-wave cycle.
pub const TRIANGLE_PERIOD: u32 = 200;

/// Lateral acceleration per frame on the triangle wave, milli-units.
pub const TRIANGLE_STEP: i64 = 1_000;

/// Orbit radius as a multiple of the per-mille trig samples (100 units).
pub const ORBIT_SCALE: i64 = 100;

/// Altitude at which a bounce-and-descend enemy halts: the first frame at
/// or below this line stops it, whatever its descent step size.
pub const BOUNCE_TRIGGER_Y: i64 = -100_000;

/// Altitude the halted enemy is parked at, just below the trigger.
pub const BOUNCE_REST_Y: i64 = -100_100;

/// How long a halted bounce enemy waits before running off.
pub const BOUNCE_WAIT_MS: u64 = 3_000;

/// Speed of the diagonal run after the bounce wait.
pub const BOUNCE_SPEED: i64 = 3_000;

/// The parabola `y = x^2/10000 + 10x - 200000` in milli-units
/// (`y = 0.1 x^2 + 10 x - 200` in world units).
pub const PARABOLA_DIV: i64 = 10_000;

pub const PARABOLA_B: i64 = 10;

pub const PARABOLA_C: i64 = -200_000;

/// Truncating division toward zero, for a positive divisor.
pub open spec fn div_trunc(n: int, d: int) -> int {
    if n >= 0 {
        n / d
    } else {
        -((-n) / d)
    }
}

/// Saturate a coordinate at the representable world range.
pub open spec fn clamp_pos(v: int) -> i64 {
    clamp_i64(v, -POS_MAX as int, POS_MAX as int) as i64
}

/// Saturate a velocity component.
pub open spec fn clamp_vel(v: int) -> i64 {
    clamp_i64(v, -VEL_MAX as int, VEL_MAX as int) as i64
}

/// Where the parabolic path wants the enemy, as a function of its x.
pub open spec fn parabola_target(x: int) -> int {
    clamp_i64(x * x / (PARABOLA_DIV as int) + PARABOLA_B * x + PARABOLA_C, -POS_MAX as int,
        POS_MAX as int)
}

/// One coordinate of the cubic Bezier curve at per-mille parameter `t`.
pub open spec fn bezier_coord(p0: int, p1: int, p2: int, p3: int, t: int) -> i64 {
    let u = 1000 - t;
    let num = u * u * u * p0 + 3 * u * u * t * p1 + 3 * u * t * t * p2 + t * t * t * p3;
    clamp_pos(div_trunc(num, 1_000_000_000))
}

/// One pattern step of a single entity.  The random-walk pattern is not
/// covered here: its new lateral velocity is drawn at run time.
pub open spec fn pattern_stepped(e: Entity, trig: TrigSample, delta: u64) -> Entity {
    let vx = e.velocity->Some_0.x;
    let vy = e.velocity->Some_0.y;
    match e.pattern {
        MotionPattern::Plain => e,
        MotionPattern::RandomWalk => e,
        MotionPattern::SineLateral => Entity {
            velocity: Some(
                Velocity {
                    x: div_trunc(SINE_AMPLITUDE * trig.sin_elapsed, 1000) as i64,
                    y: vy,
                },
            ),
            ..e
        },
        MotionPattern::TriangleWave { counter } => Entity {
            velocity: Some(
                Velocity {
                    x: clamp_vel(
                        vx + if counter < 100 {
                            TRIANGLE_STEP as int
                        } else {
                            -TRIANGLE_STEP as int
                        },
                    ),
                    y: vy,
                },
            ),
            pattern: MotionPattern::TriangleWave { counter: ((counter + 1) % 200) as u32 },
            ..e
        },
        MotionPattern::Parabola => Entity {
            velocity: Some(Velocity { x: vx, y: clamp_vel(parabola_target(e.x as int) - e.y) }),
            ..e
        },
        MotionPattern::Orbit { base_y } => Entity {
            x: (ORBIT_SCALE * trig.orbit_cos) as i64,
            y: clamp_pos(base_y + ORBIT_SCALE * trig.orbit_sin),
            pattern: MotionPattern::Orbit { base_y: clamp_pos(base_y + vy) },
            ..e
        },
        MotionPattern::BounceDescend { wait } => match wait {
            None => {
                if e.y <= BOUNCE_TRIGGER_Y {
                    Entity {
                        velocity: Some(Velocity { x: 0, y: 0 }),
                        y: BOUNCE_REST_Y,
                        pattern: MotionPattern::BounceDescend {
                            wait: Some(
                                WaitTimer {
                                    timer: Timer {
                                        duration_ms: BOUNCE_WAIT_MS,
                                        elapsed_ms: 0,
                                        mode: TimerMode::Once,
                                        finished: false,
                                        just_finished: false,
                                    },
                                },
                            ),
                        },
                        ..e
                    }
                } else {
                    e
                }
            },
            Some(w) => {
                let t = w.timer.spec_tick(delta);
                Entity {
                    velocity: if t.finished {
                        if e.x >= 0 {
                            Some(Velocity { x: BOUNCE_SPEED, y: BOUNCE_SPEED })
                        } else {
                            Some(Velocity { x: (-BOUNCE_SPEED) as i64, y: BOUNCE_SPEED })
                        }
                    } else {
                        e.velocity
                    },
                    pattern: MotionPattern::BounceDescend { wait: Some(WaitTimer { timer: t }) },
                    ..e
                }
            },
        },
        MotionPattern::BezierSwoop { curve } => {
            let t = (trig.sin_elapsed + 1000) / 2;
            Entity {
                x: bezier_coord(curve.x0 as int, curve.x1 as int, curve.x2 as int,
                    curve.x3 as int, t),
                y: bezier_coord(curve.y0 as int, curve.y1 as int, curve.y2 as int,
                    curve.y3 as int, t),
                ..e
            }
        },
    }
}

/// The sine-drift lateral velocity for a per-mille sine sample.
fn sine_velocity(sin_milli: i64) -> (r: i64)
    requires
        -1000 <= sin_milli <= 1000,
    ensures
        r == div_trunc(SINE_AMPLITUDE * sin_milli, 1000) as i64,
        -SINE_AMPLITUDE <= r <= SINE_AMPLITUDE,
{
    let p = SINE_AMPLITUDE * sin_milli;
    if p >= 0 {
        ((p as u64) / 1000) as i64
    } else {
        -((((-p) as u64) / 1000) as i64)
    }
}

/// The parabolic path's target altitude at `x`.
fn parabola_target_at(x: i64) -> (r: i64)
    requires
        -POS_MAX <= x <= POS_MAX,
    ensures
        r == parabola_target(x as int) as i64,
        -POS_MAX <= r <= POS_MAX,
{
    proof {
        assert(0 <= (x as int) * (x as int) <= (POS_MAX as int) * (POS_MAX as int))
            by (nonlinear_arith)
            requires
                -POS_MAX <= x <= POS_MAX,
        ;
    }
    let xx = (x as i128) * (x as i128);
    let q = ((xx as u128) / (PARABOLA_DIV as u128)) as i128;
    proof {
        assert(0 <= q <= xx) by (nonlinear_arith)
            requires
                q == xx / 10_000,
                0 <= xx,
        ;
        assert(q == (x as int) * (x as int) / (PARABOLA_DIV as int));
    }
    let lin = (x as i128) * 10 + (PARABOLA_C as i128);
    let t = q + lin;
    if t > POS_MAX as i128 {
        POS_MAX
    } else if t < -POS_MAX as i128 {
        -POS_MAX
    } else {
        t as i64
    }
}

/// One coordinate of the Bezier curve, saturated at the world range.
fn bezier_coord_at(p0: i64, p1: i64, p2: i64, p3: i64, t: i64) -> (r: i64)
    requires
        0 <= t <= 1000,
        -POS_MAX <= p0 <= POS_MAX,
        -POS_MAX <= p1 <= POS_MAX,
        -POS_MAX <= p2 <= POS_MAX,
        -POS_MAX <= p3 <= POS_MAX,
    ensures
        r == bezier_coord(p0 as int, p1 as int, p2 as int, p3 as int, t as int),
        -POS_MAX <= r <= POS_MAX,
{
    let u = 1000 - t;
    proof {
        let ui = u as int;
        let ti = t as int;
        assert({
            &&& 0 <= ui * ui <= 1_000_000
            &&& 0 <= ui * ui * ui <= 1_000_000_000
            &&& 0 <= 3 * ui * ui <= 3_000_000
            &&& 0 <= 3 * ui * ui * ti <= 3_000_000_000
            &&& 0 <= 3 * ui <= 3_000
            &&& 0 <= 3 * ui * ti <= 3_000_000
            &&& 0 <= 3 * ui * ti * ti <= 3_000_000_000
            &&& 0 <= ti * ti <= 1_000_000
            &&& 0 <= ti * ti * ti <= 1_000_000_000
        }) by (nonlinear_arith)
            requires
                0 <= ui <= 1000,
                0 <= ti <= 1000,
        ;
        assert({
            &&& -1_000_000_000 * (POS_MAX as int) <= ui * ui * ui * p0 <= 1_000_000_000 * (
            POS_MAX as int)
            &&& -3_000_000_000 * (POS_MAX as int) <= 3 * ui * ui * ti * p1 <= 3_000_000_000 * (
            POS_MAX as int)
            &&& -3_000_000_000 * (POS_MAX as int) <= 3 * ui * ti * ti * p2 <= 3_000_000_000 * (
            POS_MAX as int)
            &&& -1_000_000_000 * (POS_MAX as int) <= ti * ti * ti * p3 <= 1_000_000_000 * (
            POS_MAX as int)
        }) by (nonlinear_arith)
            requires
                0 <= ui * ui * ui <= 1_000_000_000,
                0 <= 3 * ui * ui * ti <= 3_000_000_000,
                0 <= 3 * ui * ti * ti <= 3_000_000_000,
                0 <= ti * ti * ti <= 1_000_000_000,
                -POS_MAX <= p0 <= POS_MAX,
                -POS_MAX <= p1 <= POS_MAX,
                -POS_MAX <= p2 <= POS_MAX,
                -POS_MAX <= p3 <= POS_MAX,
        ;
    }
    let u128v = u as i128;
    let t128 = t as i128;
    let num = u128v * u128v * u128v * (p0 as i128) + 3 * u128v * u128v * t128 * (p1 as i128) + 3
        * u128v * t128 * t128 * (p2 as i128) + t128 * t128 * t128 * (p3 as i128);
    let d = if num >= 0 {
        ((num as u128) / 1_000_000_000) as i128
    } else {
        -((((-num) as u128) / 1_000_000_000) as i128)
    };
    proof {
        assert(d == div_trunc(num as int, 1_000_000_000));
        if num >= 0 {
            assert(d <= num) by (nonlinear_arith)
                requires
                    num >= 0,
                    d == num / 1_000_000_000,
            ;
        } else {
            assert(-d <= -num) by (nonlinear_arith)
                requires
                    num < 0,
                    -d == (-num) / 1_000_000_000,
            ;
        }
    }
    if d > POS_MAX as i128 {
        POS_MAX
    } else if d < -POS_MAX as i128 {
        -POS_MAX
    } else {
        d as i64
    }
}

/// A random-walk step: everything but the lateral velocity kept; `r` is the
/// frame's one shared draw, applied to every walker alike.
pub open spec fn walker_set(e: Entity, r: i64) -> Entity {
    Entity { velocity: Some(Velocity { x: r, y: e.velocity->Some_0.y }), ..e }
}

/// Every entity after one pattern step: walkers take the frame's one shared
/// draw `r`, every other pattern follows its own step function.
pub open spec fn patterns_step_all(ents: Seq<Entity>, trig: TrigSample, delta: u64, r: i64)
    -> Seq<Entity> {
    Seq::new(
        ents.len(),
        |i: int|
            if ents[i].pattern is RandomWalk {
                walker_set(ents[i], r)
            } else {
                pattern_stepped(ents[i], trig, delta)
            },
    )
}

/// One frame of the pattern engine: every entity steps by its own pattern,
/// and all random walkers share the frame's single uniform draw.
pub open spec fn patterns_rel(a: GameState, b: GameState, trig: TrigSample, delta: u64) -> bool {
    &&& crate::common::same_resources(a, b)
    &&& exists|r: i64|
        -RANDOM_WALK_RANGE <= r < RANDOM_WALK_RANGE && b.entities@ == patterns_step_all(
            a.entities@,
            trig,
            delta,
            r,
        )
}

/// Run every entity's motion pattern for one frame.
pub fn apply_patterns(s: &mut GameState, trig: TrigSample, delta_ms: u64)
    requires
        state_wf(*old(s)),
        trig.wf(),
        delta_ms <= DELTA_MAX_MS,
    ensures
        state_wf(*final(s)),
        patterns_rel(*old(s), *final(s), trig, delta_ms),
{
    // The frame's one walk velocity, shared by every random walker.
    let walk_vx = random_i64_in(-RANDOM_WALK_RANGE, RANDOM_WALK_RANGE);
    let n = s.entities.len();
    let mut i: usize = 0;
    while i < n
        invariant
            state_wf(*old(s)),
            trig.wf(),
            delta_ms <= DELTA_MAX_MS,
            n == s.entities@.len(),
            n == old(s).entities@.len(),
            i <= n,
            -RANDOM_WALK_RANGE <= walk_vx < RANDOM_WALK_RANGE,
            crate::common::same_resources(*old(s), *s),
            forall|k: int|
                0 <= k < i && !(old(s).entities@[k].pattern is RandomWalk) ==> s.entities@[k]
                    == pattern_stepped(#[trigger] old(s).entities@[k], trig, delta_ms),
            forall|k: int|
                0 <= k < i && old(s).entities@[k].pattern is RandomWalk ==> s.entities@[k]
                    == walker_set(#[trigger] old(s).entities@[k], walk_vx),
            forall|k: int|
                0 <= k < i ==> entity_wf(#[trigger] s.entities@[k]) && entity_bounded(
                    s.entities@[k],
                    POS_MAX as int,
                ) && (is_player(s.entities@[k]) <==> is_player(old(s).entities@[k]))
                    && s.entities@[k].radius == old(s).entities@[k].radius,
            forall|k: int| i <= k < n ==> s.entities@[k] == #[trigger] old(s).entities@[k],
        decreases n - i,
    {
        proof {
            assert(entity_wf(old(s).entities@[i as int]));
            assert(entity_bounded(old(s).entities@[i as int], POS_MAX as int));
        }
        let mut e = s.entities[i];
        let vel = match e.velocity {
            Some(v) => v,
            None => Velocity { x: 0, y: 0 },
        };
        match e.pattern {
            MotionPattern::Plain => {},
            MotionPattern::SineLateral => {
                let vx = sine_velocity(trig.sin_elapsed);
                e.velocity = Some(Velocity { x: vx, y: vel.y });
                s.entities.set(i, e);
            },
            MotionPattern::RandomWalk => {
                e.velocity = Some(Velocity { x: walk_vx, y: vel.y });
                s.entities.set(i, e);
            },
            MotionPattern::TriangleWave { counter } => {
                let dir: i64 = if counter < 100 {
                    TRIANGLE_STEP
                } else {
                    -TRIANGLE_STEP
                };
                let raw = vel.x + dir;
                let vx = if raw > VEL_MAX {
                    VEL_MAX
                } else if raw < -VEL_MAX {
                    -VEL_MAX
                } else {
                    raw
                };
                e.velocity = Some(Velocity { x: vx, y: vel.y });
                e.pattern = MotionPattern::TriangleWave { counter: (counter + 1) % 200 };
                s.entities.set(i, e);
            },
            MotionPattern::Parabola => {
                let target = parabola_target_at(e.x);
                let raw = target - e.y;
                let vy = if raw > VEL_MAX {
                    VEL_MAX
                } else if raw < -VEL_MAX {
                    -VEL_MAX
                } else {
                    raw
                };
                e.velocity = Some(Velocity { x: vel.x, y: vy });
                s.entities.set(i, e);
            },
            MotionPattern::Orbit { base_y } => {
                e.x = ORBIT_SCALE * trig.orbit_cos;
                let raw_y = base_y + ORBIT_SCALE * trig.orbit_sin;
                e.y = if raw_y > POS_MAX {
                    POS_MAX
                } else if raw_y < -POS_MAX {
                    -POS_MAX
                } else {
                    raw_y
                };
                let raw_b = base_y + vel.y;
                let nb = if raw_b > POS_MAX {
                    POS_MAX
                } else if raw_b < -POS_MAX {
                    -POS_MAX
                } else {
                    raw_b
                };
                e.pattern = MotionPattern::Orbit { base_y: nb };
                s.entities.set(i, e);
            },
            MotionPattern::BounceDescend { wait } => {
                match wait {
                    None => {
                        if e.y <= BOUNCE_TRIGGER_Y {
                            e.velocity = Some(Velocity { x: 0, y: 0 });
                            e.y = BOUNCE_REST_Y;
                            e.pattern = MotionPattern::BounceDescend {
                                wait: Some(
                                    WaitTimer {
                                        timer: Timer::new(BOUNCE_WAIT_MS, TimerMode::Once),
                                    },
                                ),
                            };
                            s.entities.set(i, e);
                        }
                    },
                    Some(w) => {
                        let mut t = w.timer;
                        t.tick(delta_ms);
                        if t.finished {
                            if e.x >= 0 {
                                e.velocity = Some(
                                    Velocity { x: BOUNCE_SPEED, y: BOUNCE_SPEED },
                                );
                            } else {
                                e.velocity = Some(
                                    Velocity { x: -BOUNCE_SPEED, y: BOUNCE_SPEED },
                                );
                            }
                        }
                        e.pattern = MotionPattern::BounceDescend {
                            wait: Some(WaitTimer { timer: t }),
                        };
                        s.entities.set(i, e);
                    },
                }
            },
            MotionPattern::BezierSwoop { curve } => {
                let t = (((trig.sin_elapsed + 1000) as u64) / 2) as i64;
                proof {
                    assert(t == (trig.sin_elapsed as int + 1000) / 2);
                }
                e.x = bezier_coord_at(curve.x0, curve.x1, curve.x2, curve.x3, t);
                e.y = bezier_coord_at(curve.y0, curve.y1, curve.y2, curve.y3, t);
                s.entities.set(i, e);
            },
        }
        i = i + 1;
    }
    proof {
        assert forall|k: int|
            0 <= k < n && is_player(#[trigger] s.entities@[k]) implies {
            &&& s.limit.left + 2 * s.entities@[k].radius <= s.limit.right
            &&& s.limit.bottom + 2 * s.entities@[k].radius <= s.limit.top
        } by {
            assert(is_player(old(s).entities@[k]));
        }
        lemma_count_congruent(s.entities@, old(s).entities@, player_pred());
        assert(s.entities@ =~= patterns_step_all(old(s).entities@, trig, delta_ms, walk_vx));
    }
}

} // verus!
