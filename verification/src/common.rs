//! Frame-independent housekeeping systems: velocity integration, the player
//! window clamp, margin-based cleanup, the global speed control and the
//! transient-effect lifecycle.

use vstd::prelude::*;
use vstd::pervasive::VecAdditionalExecFns;
use crate::define::{
    AutoDespawn, Entity, GameState, InputState, MotionPattern, ShootBang, ShowBangPoint,
    WindowSizeLimit, entity_bounded, entity_wf, is_bang, is_bang_point, is_player,
    player_pred, positions_bounded, state_inv, state_wf, EFFECT_DEPTH, EFFECT_LIFETIME_MS,
    EFFECT_RADIUS, POS_MAX, SPEED_CAP, VEL_MAX, WINDOW_SIZE_MARGIN, bump_id_n,
};
use crate::timer::{Timer, TimerMode, DELTA_MAX_MS};
use crate::support::{
    lemma_count_congruent, lemma_count_seq_keep_le, lemma_count_zero, lemma_count_add,
    lemma_seq_keep_step, seq_keep,
};

verus! {

/// All state but the entity list unchanged.
pub open spec fn same_resources(a: GameState, b: GameState) -> bool {
    &&& a.limit == b.limit
    &&& a.status == b.status
    &&& a.speed == b.speed
    &&& a.game_timer == b.game_timer
    &&& a.schedule == b.schedule
    &&& a.next_id == b.next_id
}

/// One motion-engine step of a single entity: its position advances by
/// exactly its velocity, componentwise; everything else is untouched.
pub open spec fn moved_entity(e: Entity) -> Entity {
    match e.velocity {
        Some(v) => Entity { x: (e.x + v.x) as i64, y: (e.y + v.y) as i64, ..e },
        None => e,
    }
}

/// One motion-engine frame over the whole entity list.
pub open spec fn auto_move_rel(a: GameState, b: GameState) -> bool {
    &&& b.entities@.len() == a.entities@.len()
    &&& forall|i: int|
        0 <= i < a.entities@.len() ==> b.entities@[i] == moved_entity(#[trigger] a.entities@[i])
    &&& same_resources(a, b)
}

/// Advance every velocity-bearing entity by its velocity, exactly.
pub fn auto_move_system(s: &mut GameState)
    requires
        state_wf(*old(s)),
    ensures
        auto_move_rel(*old(s), *final(s)),
        state_inv(*final(s)),
        positions_bounded(final(s).entities@, POS_MAX + VEL_MAX),
{
    let n = s.entities.len();
    let mut i: usize = 0;
    while i < n
        invariant
            state_wf(*old(s)),
            n == s.entities@.len(),
            n == old(s).entities@.len(),
            i <= n,
            same_resources(*old(s), *s),
            forall|k: int|
                0 <= k < i ==> s.entities@[k] == moved_entity(#[trigger] old(s).entities@[k]),
            forall|k: int| i <= k < n ==> s.entities@[k] == #[trigger] old(s).entities@[k],
        decreases n - i,
    {
        let vopt = s.entities[i].velocity;
        if let Some(v) = vopt {
            proof {
                assert(entity_bounded(old(s).entities@[i as int], POS_MAX as int));
            }
            let mut e = s.entities[i];
            e.x = e.x + v.x;
            e.y = e.y + v.y;
            s.entities.set(i, e);
        }
        i = i + 1;
    }
    proof {
        assert forall|k: int| 0 <= k < n implies entity_wf(#[trigger] s.entities@[k]) by {
            assert(entity_wf(old(s).entities@[k]));
        }
        assert forall|k: int|
            0 <= k < n implies entity_bounded(#[trigger] s.entities@[k], POS_MAX + VEL_MAX) by {
            assert(entity_bounded(old(s).entities@[k], POS_MAX as int));
        }
        assert forall|k: int|
            0 <= k < n && is_player(#[trigger] s.entities@[k]) implies {
            &&& s.limit.left + 2 * s.entities@[k].radius <= s.limit.right
            &&& s.limit.bottom + 2 * s.entities@[k].radius <= s.limit.top
        } by {
            assert(is_player(old(s).entities@[k]));
        }
        lemma_count_congruent(s.entities@, old(s).entities@, player_pred());
    }
}

/// Clamp `v` into `[lo, hi]`.
pub open spec fn clamp_i64(v: int, lo: int, hi: int) -> int {
    if v > hi {
        hi
    } else if v < lo {
        lo
    } else {
        v
    }
}

/// The player after the window clamp: each coordinate forced into the field
/// inset by the player's radius.
pub open spec fn clamped_player(e: Entity, w: WindowSizeLimit) -> Entity {
    Entity {
        x: clamp_i64(e.x as int, w.left + e.radius, w.right - e.radius) as i64,
        y: clamp_i64(e.y as int, w.bottom + e.radius, w.top - e.radius) as i64,
        ..e
    }
}

/// One window-clamp tick: every player forced into the field inset by its
/// radius, everything else untouched.
pub open spec fn clamp_rel(a: GameState, b: GameState) -> bool {
    &&& b.entities@.len() == a.entities@.len()
    &&& forall|i: int|
        0 <= i < a.entities@.len() && is_player(#[trigger] a.entities@[i]) ==> b.entities@[i]
            == clamped_player(a.entities@[i], a.limit)
    &&& forall|i: int|
        0 <= i < a.entities@.len() && !is_player(#[trigger] a.entities@[i]) ==> b.entities@[i]
            == a.entities@[i]
    &&& same_resources(a, b)
}

/// Keep the player inside the play field: after this call the player's
/// position lies within every edge inset by its radius.
pub fn player_in_window_system(s: &mut GameState)
    requires
        state_wf(*old(s)),
    ensures
        clamp_rel(*old(s), *final(s)),
        forall|i: int|
            0 <= i < final(s).entities@.len() && is_player(#[trigger] final(s).entities@[i]) ==> {
                &&& old(s).limit.left + final(s).entities@[i].radius <= final(s).entities@[i].x
                &&& final(s).entities@[i].x <= old(s).limit.right - final(s).entities@[i].radius
                &&& old(s).limit.bottom + final(s).entities@[i].radius <= final(s).entities@[i].y
                &&& final(s).entities@[i].y <= old(s).limit.top - final(s).entities@[i].radius
            },
        same_resources(*old(s), *final(s)),
        state_wf(*final(s)),
{
    let n = s.entities.len();
    let mut i: usize = 0;
    while i < n
        invariant
            state_wf(*old(s)),
            n == s.entities@.len(),
            n == old(s).entities@.len(),
            i <= n,
            same_resources(*old(s), *s),
            forall|k: int|
                0 <= k < i && is_player(#[trigger] old(s).entities@[k]) ==> s.entities@[k]
                    == clamped_player(old(s).entities@[k], old(s).limit),
            forall|k: int|
                0 <= k < i && !is_player(#[trigger] old(s).entities@[k]) ==> s.entities@[k]
                    == old(s).entities@[k],
            forall|k: int| i <= k < n ==> s.entities@[k] == #[trigger] old(s).entities@[k],
        decreases n - i,
    {
        if s.entities[i].player.is_some() {
            proof {
                assert(entity_wf(old(s).entities@[i as int]));
                assert(entity_bounded(old(s).entities@[i as int], POS_MAX as int));
                assert(is_player(old(s).entities@[i as int]));
            }
            let mut e = s.entities[i];
            let top_limit = s.limit.top - e.radius;
            if e.y > top_limit {
                e.y = top_limit;
            }
            let bottom_limit = s.limit.bottom + e.radius;
            if e.y < bottom_limit {
                e.y = bottom_limit;
            }
            let right_limit = s.limit.right - e.radius;
            if e.x > right_limit {
                e.x = right_limit;
            }
            let left_limit = s.limit.left + e.radius;
            if e.x < left_limit {
                e.x = left_limit;
            }
            s.entities.set(i, e);
        }
        i = i + 1;
    }
    proof {
        assert forall|k: int| 0 <= k < n implies entity_wf(#[trigger] s.entities@[k])
            && entity_bounded(s.entities@[k], POS_MAX as int) by {
            assert(entity_wf(old(s).entities@[k]));
            assert(entity_bounded(old(s).entities@[k], POS_MAX as int));
            if is_player(old(s).entities@[k]) {
                assert(old(s).limit.left + 2 * old(s).entities@[k].radius <= old(s).limit.right);
                assert(old(s).limit.bottom + 2 * old(s).entities@[k].radius <= old(s).limit.top);
            }
        }
        assert forall|k: int|
            0 <= k < n && is_player(#[trigger] s.entities@[k]) implies {
            &&& old(s).limit.left + s.entities@[k].radius <= s.entities@[k].x
            &&& s.entities@[k].x <= old(s).limit.right - s.entities@[k].radius
            &&& old(s).limit.bottom + s.entities@[k].radius <= s.entities@[k].y
            &&& s.entities@[k].y <= old(s).limit.top - s.entities@[k].radius
        } by {
            assert(is_player(old(s).entities@[k]));
            assert(old(s).limit.left + 2 * old(s).entities@[k].radius <= old(s).limit.right);
            assert(old(s).limit.bottom + 2 * old(s).entities@[k].radius <= old(s).limit.top);
            assert(s.entities@[k] == clamped_player(old(s).entities@[k], old(s).limit));
        }
        assert forall|k: int|
            0 <= k < n && is_player(#[trigger] s.entities@[k]) implies {
            &&& s.limit.left + 2 * s.entities@[k].radius <= s.limit.right
            &&& s.limit.bottom + 2 * s.entities@[k].radius <= s.limit.top
        } by {
            assert(is_player(old(s).entities@[k]));
        }
        lemma_count_congruent(s.entities@, old(s).entities@, player_pred());
    }
}

/// Outside the play field by more than the cleanup margin in some direction.
pub open spec fn out_of_field(e: Entity, w: WindowSizeLimit) -> bool {
    ||| e.x > w.right + WINDOW_SIZE_MARGIN
    ||| e.x < w.left - WINDOW_SIZE_MARGIN
    ||| e.y > w.top + WINDOW_SIZE_MARGIN
    ||| e.y < w.bottom - WINDOW_SIZE_MARGIN
}

/// Survives margin cleanup: not both despawnable and out of the field.
pub open spec fn despawn_keep(w: WindowSizeLimit) -> spec_fn(Entity) -> bool {
    |e: Entity| !(e.auto_despawn is Some && out_of_field(e, w))
}

/// Remove every auto-despawn entity that left the field by more than the
/// margin, keeping everything else in order.
/// One margin-cleanup pass: exactly the auto-despawn entities outside the
/// field by more than the margin disappear.
pub open spec fn despawn_rel(a: GameState, b: GameState) -> bool {
    &&& b.entities@ == seq_keep(a.entities@, despawn_keep(a.limit))
    &&& same_resources(a, b)
}

pub fn auto_despawn_system(s: &mut GameState)
    requires
        state_inv(*old(s)),
        positions_bounded(old(s).entities@, POS_MAX + VEL_MAX),
    ensures
        despawn_rel(*old(s), *final(s)),
        state_wf(*final(s)),
{
    let ghost p = despawn_keep(old(s).limit);
    let n = s.entities.len();
    let mut out: Vec<Entity> = Vec::new();
    let mut i: usize = 0;
    while i < n
        invariant
            state_inv(*old(s)),
            positions_bounded(old(s).entities@, POS_MAX + VEL_MAX),
            *s == *old(s),
            n == s.entities@.len(),
            i <= n,
            p == despawn_keep(old(s).limit),
            out@ == seq_keep(old(s).entities@.take(i as int), p),
        decreases n - i,
    {
        let e = s.entities[i];
        proof {
            assert(entity_bounded(old(s).entities@[i as int], POS_MAX + VEL_MAX));
            lemma_seq_keep_step(old(s).entities@, p, i as int);
        }
        let gone = e.auto_despawn.is_some() && (e.x > s.limit.right + WINDOW_SIZE_MARGIN || e.x
            < s.limit.left - WINDOW_SIZE_MARGIN || e.y > s.limit.top + WINDOW_SIZE_MARGIN || e.y
            < s.limit.bottom - WINDOW_SIZE_MARGIN);
        if !gone {
            out.push(e);
        }
        i = i + 1;
    }
    proof {
        assert(old(s).entities@.take(n as int) =~= old(s).entities@);
    }
    s.entities = out;
    proof {
        assert forall|k: int| 0 <= k < s.entities@.len() implies entity_wf(
            #[trigger] s.entities@[k],
        ) by {
            let j = crate::support::lemma_seq_keep_elem(old(s).entities@, p, k);
            assert(entity_wf(old(s).entities@[j]));
        }
        assert forall|k: int|
            0 <= k < s.entities@.len() && is_player(#[trigger] s.entities@[k]) implies {
            &&& s.limit.left + 2 * s.entities@[k].radius <= s.limit.right
            &&& s.limit.bottom + 2 * s.entities@[k].radius <= s.limit.top
        } by {
            let j = crate::support::lemma_seq_keep_elem(old(s).entities@, p, k);
            assert(is_player(old(s).entities@[j]));
        }
        lemma_count_seq_keep_le(old(s).entities@, p, player_pred());
        if s.status.is_spawn {
            crate::support::lemma_count_nonneg(s.entities@, player_pred());
        }
        assert forall|k: int| 0 <= k < s.entities@.len() implies entity_bounded(
            #[trigger] s.entities@[k],
            POS_MAX as int,
        ) by {
            let j = crate::support::lemma_seq_keep_elem(old(s).entities@, p, k);
            let e = old(s).entities@[j];
            assert(entity_bounded(e, POS_MAX + VEL_MAX));
            assert(entity_wf(e));
            if e.auto_despawn is Some {
                assert(!out_of_field(e, old(s).limit));
            } else {
                assert(is_player(e));
            }
        }
    }
}

/// The speed value after one frame of input: up multiplies by 1.2 and caps,
/// down multiplies by 0.8 and floors at one per-mille; both in integer
/// per-mille arithmetic.
pub open spec fn speed_after(value: u64, input: InputState) -> u64 {
    let up = if input.speed_up {
        if value * 12 / 10 > SPEED_CAP {
            SPEED_CAP
        } else {
            (value * 12 / 10) as u64
        }
    } else {
        value
    };
    if input.speed_down {
        if up * 8 / 10 < 1 {
            1u64
        } else {
            (up * 8 / 10) as u64
        }
    } else {
        up
    }
}

/// One frame of the speed keys: only the multiplier changes, exactly by the
/// up/down scaling.
pub open spec fn speed_rel(a: GameState, b: GameState, input: InputState) -> bool {
    b == (GameState {
        speed: crate::define::SpeedControl { value: speed_after(a.speed.value, input) },
        ..a
    })
}

/// Scale the global speed multiplier on the speed-up / speed-down keys.
pub fn speed_control_system(s: &mut GameState, input: InputState)
    requires
        state_inv(*old(s)),
    ensures
        speed_rel(*old(s), *final(s), input),
        state_inv(*final(s)),
        1 <= final(s).speed.value <= SPEED_CAP,
{
    if input.speed_up {
        let raised = s.speed.value * 12 / 10;
        s.speed.value = if raised > SPEED_CAP {
            SPEED_CAP
        } else {
            raised
        };
    }
    if input.speed_down {
        let lowered = s.speed.value * 8 / 10;
        s.speed.value = if lowered < 1 {
            1
        } else {
            lowered
        };
    }
}

/// One tick of a transient effect's timer; the effect disappears when its
/// lifetime completes.
pub open spec fn bang_kept(e: Entity, delta: u64) -> bool {
    !(is_bang(e) && e.bang->Some_0.timer.spec_tick(delta).just_finished)
}

/// The entity with its effect timer advanced (identity for non-effects).
pub open spec fn bang_ticked(e: Entity, delta: u64) -> Entity {
    if is_bang(e) {
        Entity { bang: Some(ShootBang { timer: e.bang->Some_0.timer.spec_tick(delta) }), ..e }
    } else {
        e
    }
}

/// The keep-and-tick predicate pair over a whole frame.
pub open spec fn bang_step(delta: u64) -> spec_fn(Entity) -> bool {
    |e: Entity| bang_kept(e, delta)
}

/// Advance every transient effect's lifetime and remove the ones that just
/// completed.
/// One frame of effect lifetimes: every effect's timer ticked, the ones
/// whose lifetime just completed removed.
pub open spec fn shoot_bang_rel(a: GameState, b: GameState, delta: u64) -> bool {
    &&& b.entities@ == seq_keep(a.entities@, bang_step(delta)).map_values(
        |e: Entity| bang_ticked(e, delta),
    )
    &&& same_resources(a, b)
}

pub fn shoot_bang_system(s: &mut GameState, delta_ms: u64)
    requires
        state_inv(*old(s)),
        positions_bounded(old(s).entities@, POS_MAX + VEL_MAX),
        delta_ms <= DELTA_MAX_MS,
    ensures
        shoot_bang_rel(*old(s), *final(s), delta_ms),
        state_inv(*final(s)),
        positions_bounded(final(s).entities@, POS_MAX + VEL_MAX),
{
    let ghost p = bang_step(delta_ms);
    let n = s.entities.len();
    let mut out: Vec<Entity> = Vec::new();
    let mut i: usize = 0;
    while i < n
        invariant
            state_inv(*old(s)),
            positions_bounded(old(s).entities@, POS_MAX + VEL_MAX),
            *s == *old(s),
            n == s.entities@.len(),
            i <= n,
            delta_ms <= DELTA_MAX_MS,
            p == bang_step(delta_ms),
            out@ == seq_keep(old(s).entities@.take(i as int), p).map_values(
                |e: Entity| bang_ticked(e, delta_ms),
            ),
        decreases n - i,
    {
        proof {
            assert(entity_wf(old(s).entities@[i as int]));
            lemma_seq_keep_step(old(s).entities@, p, i as int);
        }
        let mut e = s.entities[i];
        let mut keep = true;
        if e.bang.is_some() {
            let mut t = match e.bang {
                Some(b) => b.timer,
                None => Timer::new(1, TimerMode::Once),
            };
            let just = t.tick(delta_ms);
            if just {
                keep = false;
            } else {
                e.bang = Some(ShootBang { timer: t });
            }
        }
        if keep {
            out.push(e);
            proof {
                assert(out@.drop_last() =~= seq_keep(old(s).entities@.take(i as int), p)
                    .map_values(|e: Entity| bang_ticked(e, delta_ms)));
                assert(out@ =~= seq_keep(old(s).entities@.take(i as int + 1), p).map_values(
                    |e: Entity| bang_ticked(e, delta_ms),
                ));
            }
        }
        i = i + 1;
    }
    proof {
        assert(old(s).entities@.take(n as int) =~= old(s).entities@);
    }
    s.entities = out;
    proof {
        let kept = seq_keep(old(s).entities@, p);
        assert forall|k: int| 0 <= k < s.entities@.len() implies entity_wf(
            #[trigger] s.entities@[k],
        ) && entity_bounded(s.entities@[k], POS_MAX + VEL_MAX) && (is_player(s.entities@[k]) ==> {
            &&& s.limit.left + 2 * s.entities@[k].radius <= s.limit.right
            &&& s.limit.bottom + 2 * s.entities@[k].radius <= s.limit.top
        }) by {
            assert(s.entities@[k] == bang_ticked(kept[k], delta_ms));
            let j = crate::support::lemma_seq_keep_elem(old(s).entities@, p, k);
            assert(entity_wf(old(s).entities@[j]));
            assert(entity_bounded(old(s).entities@[j], POS_MAX + VEL_MAX));
            if is_player(old(s).entities@[j]) {
                assert(old(s).limit.left + 2 * old(s).entities@[j].radius <= old(s).limit.right);
                assert(old(s).limit.bottom + 2 * old(s).entities@[j].radius <= old(s).limit.top);
            }
        }
        let ticked = s.entities@;
        lemma_count_seq_keep_le(old(s).entities@, p, player_pred());
        lemma_count_congruent(ticked, kept, player_pred());
        if s.status.is_spawn {
            crate::support::lemma_count_nonneg(s.entities@, player_pred());
        }
    }
}

/// Not carrying an effect-request marker.
pub open spec fn not_bang_point() -> spec_fn(Entity) -> bool {
    |e: Entity| !is_bang_point(e)
}

/// Carrying an effect-request marker.
pub open spec fn bang_point_pred() -> spec_fn(Entity) -> bool {
    |e: Entity| is_bang_point(e)
}

/// The effect-request markers of a frame, in entity order.
pub open spec fn bang_points_of(ents: Seq<Entity>) -> Seq<ShowBangPoint> {
    seq_keep(ents, bang_point_pred()).map_values(|e: Entity| e.bang_point->Some_0)
}

/// A freshly spawned visual effect at `(x, y)` with a full lifetime.
pub open spec fn bang_entity(x: i64, y: i64, id: u64) -> Entity {
    Entity {
        id,
        x,
        y,
        z: EFFECT_DEPTH,
        radius: EFFECT_RADIUS,
        velocity: None,
        player: None,
        enemy: None,
        player_shoot: None,
        enemy_shoot: None,
        auto_despawn: Some(AutoDespawn),
        start_position: None,
        bang_point: None,
        bang: Some(
            ShootBang {
                timer: Timer {
                    duration_ms: EFFECT_LIFETIME_MS,
                    elapsed_ms: 0,
                    mode: TimerMode::Once,
                    finished: false,
                    just_finished: false,
                },
            },
        ),
        pattern: MotionPattern::Plain,
    }
}

/// Build the effect entity in executable code.
pub fn make_bang_entity(x: i64, y: i64, id: u64) -> (e: Entity)
    ensures
        e == bang_entity(x, y, id),
{
    Entity {
        id,
        x,
        y,
        z: EFFECT_DEPTH,
        radius: EFFECT_RADIUS,
        velocity: None,
        player: None,
        enemy: None,
        player_shoot: None,
        enemy_shoot: None,
        auto_despawn: Some(AutoDespawn),
        start_position: None,
        bang_point: None,
        bang: Some(ShootBang { timer: Timer::new(EFFECT_LIFETIME_MS, TimerMode::Once) }),
        pattern: MotionPattern::Plain,
    }
}

/// Replace every effect-request marker by a freshly spawned visual effect at
/// the recorded point; the markers disappear, the effects are appended in
/// marker order under fresh identifiers.
/// One marker-conversion pass: every effect-request marker replaced by a
/// freshly spawned effect at its point, appended in marker order.
pub open spec fn show_bang_rel(a: GameState, b: GameState) -> bool {
    &&& b.entities@ == seq_keep(a.entities@, not_bang_point()) + Seq::new(
        bang_points_of(a.entities@).len(),
        |k: int|
            bang_entity(
                bang_points_of(a.entities@)[k].x,
                bang_points_of(a.entities@)[k].y,
                bump_id_n(a.next_id, k as nat),
            ),
    )
    &&& b.next_id == bump_id_n(a.next_id, bang_points_of(a.entities@).len() as nat)
    &&& b.limit == a.limit
    &&& b.status == a.status
    &&& b.speed == a.speed
    &&& b.game_timer == a.game_timer
    &&& b.schedule == a.schedule
}

pub fn show_bang_system(s: &mut GameState)
    requires
        state_inv(*old(s)),
        positions_bounded(old(s).entities@, POS_MAX + VEL_MAX),
    ensures
        show_bang_rel(*old(s), *final(s)),
        state_inv(*final(s)),
        positions_bounded(final(s).entities@, POS_MAX + VEL_MAX),
{
    let ghost keep_p = not_bang_point();
    let ghost pt_p = bang_point_pred();
    let ghost id0 = s.next_id;
    let n = s.entities.len();
    let mut out: Vec<Entity> = Vec::new();
    let mut pts: Vec<ShowBangPoint> = Vec::new();
    let mut i: usize = 0;
    while i < n
        invariant
            state_inv(*old(s)),
            positions_bounded(old(s).entities@, POS_MAX + VEL_MAX),
            *s == *old(s),
            n == s.entities@.len(),
            i <= n,
            keep_p == not_bang_point(),
            pt_p == bang_point_pred(),
            out@ == seq_keep(old(s).entities@.take(i as int), keep_p),
            pts@ == seq_keep(old(s).entities@.take(i as int), pt_p).map_values(
                |e: Entity| e.bang_point->Some_0,
            ),
        decreases n - i,
    {
        proof {
            lemma_seq_keep_step(old(s).entities@, keep_p, i as int);
            lemma_seq_keep_step(old(s).entities@, pt_p, i as int);
        }
        let e = s.entities[i];
        match e.bang_point {
            Some(p) => {
                pts.push(p);
                proof {
                    assert(pts@.drop_last() =~= seq_keep(
                        old(s).entities@.take(i as int),
                        pt_p,
                    ).map_values(|e: Entity| e.bang_point->Some_0));
                    assert(pts@ =~= seq_keep(old(s).entities@.take(i as int + 1), pt_p)
                        .map_values(|e: Entity| e.bang_point->Some_0));
                }
            },
            None => {
                out.push(e);
            },
        }
        i = i + 1;
    }
    proof {
        assert(old(s).entities@.take(n as int) =~= old(s).entities@);
    }
    let ghost kept = out@;
    let ghost points = pts@;
    let m = pts.len();
    let mut j: usize = 0;
    while j < m
        invariant
            state_inv(*old(s)),
            positions_bounded(old(s).entities@, POS_MAX + VEL_MAX),
            s.entities@ == old(s).entities@,
            s.limit == old(s).limit,
            s.status == old(s).status,
            s.speed == old(s).speed,
            s.game_timer == old(s).game_timer,
            s.schedule == old(s).schedule,
            id0 == old(s).next_id,
            j <= m,
            m == points.len(),
            kept == seq_keep(old(s).entities@, not_bang_point()),
            points == bang_points_of(old(s).entities@),
            pts@ == points,
            out@.len() == kept.len() + j,
            forall|k: int| 0 <= k < kept.len() ==> out@[k] == kept[k],
            forall|k: int|
                0 <= k < j ==> out@[kept.len() + k] == bang_entity(
                    points[k].x,
                    points[k].y,
                    bump_id_n(id0, k as nat),
                ),
            s.next_id == bump_id_n(id0, j as nat),
        decreases m - j,
    {
        let p = pts[j];
        let id = s.next_id;
        if s.next_id < u64::MAX {
            s.next_id = s.next_id + 1;
        }
        out.push(make_bang_entity(p.x, p.y, id));
        j = j + 1;
    }
    s.entities = out;
    proof {
        let spawned = Seq::new(
            points.len(),
            |k: int| bang_entity(points[k].x, points[k].y, bump_id_n(id0, k as nat)),
        );
        assert(s.entities@ =~= kept + spawned);
        assert forall|k: int| 0 <= k < s.entities@.len() implies entity_wf(
            #[trigger] s.entities@[k],
        ) && entity_bounded(s.entities@[k], POS_MAX + VEL_MAX) && (is_player(s.entities@[k])
            ==> {
            &&& s.limit.left + 2 * s.entities@[k].radius <= s.limit.right
            &&& s.limit.bottom + 2 * s.entities@[k].radius <= s.limit.top
        }) by {
            if k < kept.len() {
                let j2 = crate::support::lemma_seq_keep_elem(
                    old(s).entities@,
                    not_bang_point(),
                    k,
                );
                assert(entity_wf(old(s).entities@[j2]));
                assert(entity_bounded(old(s).entities@[j2], POS_MAX + VEL_MAX));
                if is_player(old(s).entities@[j2]) {
                    assert(old(s).limit.left + 2 * old(s).entities@[j2].radius <= old(
                        s,
                    ).limit.right);
                    assert(old(s).limit.bottom + 2 * old(s).entities@[j2].radius <= old(
                        s,
                    ).limit.top);
                }
            } else {
                let k2 = k - kept.len();
                assert(s.entities@[k] == spawned[k2]);
                let j3 = crate::support::lemma_seq_keep_elem(
                    old(s).entities@,
                    bang_point_pred(),
                    k2,
                );
                let src = old(s).entities@[j3];
                assert(points[k2] == src.bang_point->Some_0);
                assert(entity_wf(src));
                assert(entity_bounded(src, POS_MAX + VEL_MAX));
                assert(points[k2].x == src.x && points[k2].y == src.y);
            }
        }
        lemma_count_seq_keep_le(old(s).entities@, not_bang_point(), player_pred());
        assert(forall|k: int| 0 <= k < spawned.len() ==> !player_pred()(#[trigger] spawned[k]));
        lemma_count_zero(spawned, player_pred());
        lemma_count_add(kept, spawned, player_pred());
        if s.status.is_spawn {
            crate::support::lemma_count_nonneg(s.entities@, player_pred());
        }
    }
}

} // verus!
