//! Broad-phase collision testing and resolution.
//!
//! Each frame, after motion, three pairwise rules run in order over one
//! snapshot of the entity list, with liveness flags guarding against an
//! entity being matched again after a rule already despawned it:
//! player projectile against enemy, enemy projectile against the player, and
//! player against enemy.  Resolution awards points, schedules the player
//! respawn and records effect markers; the removals apply at the end of the
//! pass.

use vstd::prelude::*;
use vstd::pervasive::VecAdditionalExecFns;
use crate::define::{
    AutoDespawn, Entity, GameState, MotionPattern, PlayerStatus, ShowBangPoint, entity_bounded,
    entity_wf, is_enemy, is_enemy_shoot, is_player, is_player_shoot, player_pred,
    positions_bounded, state_inv, bump_id_n, POS_MAX, RADIUS_MAX, RESPAWN_DELAY_MS, VEL_MAX,
};
use crate::timer::{Timer, TimerMode};
use crate::support::{
    count_matching, keep_flagged, lemma_count_keep_flagged_le, lemma_count_keep_flagged_zero,
    lemma_count_add, lemma_count_pos, lemma_count_zero, lemma_keep_flagged_elem,
    lemma_keep_flagged_step,
};

verus! {

/// The collision predicate: axis-aligned bounding boxes of side `2 * radius`,
/// centered at each entity's position, overlap on both axes.
pub open spec fn overlaps(a: Entity, b: Entity) -> bool {
    &&& -(a.radius + b.radius) < a.x - b.x < a.radius + b.radius
    &&& -(a.radius + b.radius) < a.y - b.y < a.radius + b.radius
}

/// Executable bounding-box overlap test.
pub fn overlap_test(a: &Entity, b: &Entity) -> (r: bool)
    requires
        entity_bounded(*a, POS_MAX + VEL_MAX),
        entity_bounded(*b, POS_MAX + VEL_MAX),
        0 <= a.radius <= RADIUS_MAX,
        0 <= b.radius <= RADIUS_MAX,
    ensures
        r == overlaps(*a, *b),
{
    let rsum = a.radius + b.radius;
    let dx = a.x - b.x;
    let dy = a.y - b.y;
    -rsum < dx && dx < rsum && -rsum < dy && dy < rsum
}

/// The first index at or after `j` that is still alive and satisfies `p`.
pub open spec fn first_live(
    ents: Seq<Entity>,
    alive: Seq<bool>,
    p: spec_fn(Entity) -> bool,
    j: int,
) -> Option<int>
    decreases ents.len() - j,
{
    if !(0 <= j < ents.len()) {
        None
    } else if alive[j] && p(ents[j]) {
        Some(j)
    } else {
        first_live(ents, alive, p, j + 1)
    }
}

/// A live player projectile whose box overlaps `target`.
pub open spec fn shot_hits(target: Entity) -> spec_fn(Entity) -> bool {
    |b: Entity| is_player_shoot(b) && overlaps(target, b)
}

/// A live enemy projectile whose box overlaps `target`.
pub open spec fn enemy_shot_hits(target: Entity) -> spec_fn(Entity) -> bool {
    |b: Entity| is_enemy_shoot(b) && overlaps(target, b)
}

/// A live enemy whose box overlaps `target`.
pub open spec fn enemy_hits(target: Entity) -> spec_fn(Entity) -> bool {
    |b: Entity| is_enemy(b) && overlaps(target, b)
}

/// Nothing at or after `j` is alive and satisfies `p`, so the search misses.
pub proof fn lemma_first_live_none(
    ents: Seq<Entity>,
    alive: Seq<bool>,
    p: spec_fn(Entity) -> bool,
    j: int,
)
    requires
        forall|i: int| j <= i < ents.len() ==> !(alive[i] && p(#[trigger] ents[i])),
    ensures
        first_live(ents, alive, p, j) is None,
    decreases ents.len() - j,
{
    if 0 <= j < ents.len() {
        lemma_first_live_none(ents, alive, p, j + 1);
    }
}

/// What the search finds is live, satisfies `p`, and is the first such index.
pub proof fn lemma_first_live_found(
    ents: Seq<Entity>,
    alive: Seq<bool>,
    p: spec_fn(Entity) -> bool,
    j: int,
)
    requires
        first_live(ents, alive, p, j) is Some,
    ensures
        ({
            let f = first_live(ents, alive, p, j)->Some_0;
            &&& j <= f < ents.len()
            &&& alive[f]
            &&& p(ents[f])
            &&& forall|i: int| j <= i < f ==> !(alive[i] && p(#[trigger] ents[i]))
        }),
    decreases ents.len() - j,
{
    if 0 <= j < ents.len() {
        if !(alive[j] && p(ents[j])) {
            lemma_first_live_found(ents, alive, p, j + 1);
        }
    }
}

/// Outcome of the player-projectile rule: liveness flags, points gained, and
/// the effect markers recorded so far.
pub ghost struct Rule1Out {
    pub alive: Seq<bool>,
    pub gained: int,
    pub points: Seq<ShowBangPoint>,
}

/// Process one enemy index: the first live overlapping player projectile
/// despawns both, awards the enemy's point value and records an effect at
/// the enemy's last position.
pub open spec fn rule1_step(ents: Seq<Entity>, st: Rule1Out, e: int) -> Rule1Out {
    if 0 <= e < ents.len() && st.alive[e] && is_enemy(ents[e]) {
        match first_live(ents, st.alive, shot_hits(ents[e]), 0) {
            Some(jv) => Rule1Out {
                alive: st.alive.update(e, false).update(jv, false),
                gained: st.gained + ents[e].enemy->Some_0.point,
                points: st.points.push(ShowBangPoint { x: ents[e].x, y: ents[e].y }),
            },
            None => st,
        }
    } else {
        st
    }
}

/// The player-projectile rule applied to enemy indices below `k`.
pub open spec fn rule1_upto(ents: Seq<Entity>, k: int) -> Rule1Out
    decreases k,
{
    if k <= 0 {
        Rule1Out { alive: Seq::new(ents.len(), |i: int| true), gained: 0, points: Seq::empty() }
    } else {
        rule1_step(ents, rule1_upto(ents, k - 1), k - 1)
    }
}

/// The full player-projectile rule over one frame snapshot.
pub open spec fn rule1(ents: Seq<Entity>) -> Rule1Out {
    rule1_upto(ents, ents.len() as int)
}

/// Outcome of a rule that may kill the player: liveness flags, whether the
/// player was hit, and the effect markers it records.
pub ghost struct RuleHitOut {
    pub alive: Seq<bool>,
    pub hit: bool,
    pub points: Seq<ShowBangPoint>,
}

/// The enemy-projectile rule: while the player is live and enabled, the
/// first live overlapping enemy projectile despawns the player and itself
/// and records an effect at the player's position.
pub open spec fn rule2(ents: Seq<Entity>, alive0: Seq<bool>) -> RuleHitOut {
    match first_live(ents, alive0, player_pred(), 0) {
        Some(pi) => {
            if ents[pi].player->Some_0.is_enable {
                match first_live(ents, alive0, enemy_shot_hits(ents[pi]), 0) {
                    Some(si) => RuleHitOut {
                        alive: alive0.update(pi, false).update(si, false),
                        hit: true,
                        points: seq![ShowBangPoint { x: ents[pi].x, y: ents[pi].y }],
                    },
                    None => RuleHitOut { alive: alive0, hit: false, points: Seq::empty() },
                }
            } else {
                RuleHitOut { alive: alive0, hit: false, points: Seq::empty() }
            }
        },
        None => RuleHitOut { alive: alive0, hit: false, points: Seq::empty() },
    }
}

/// The player-enemy contact rule: while the player is live and enabled, the
/// first live overlapping enemy despawns both and records one effect at each
/// of the two positions.
pub open spec fn rule3(ents: Seq<Entity>, alive0: Seq<bool>) -> RuleHitOut {
    match first_live(ents, alive0, player_pred(), 0) {
        Some(pi) => {
            if ents[pi].player->Some_0.is_enable {
                match first_live(ents, alive0, enemy_hits(ents[pi]), 0) {
                    Some(ei) => RuleHitOut {
                        alive: alive0.update(pi, false).update(ei, false),
                        hit: true,
                        points: seq![
                            ShowBangPoint { x: ents[pi].x, y: ents[pi].y },
                            ShowBangPoint { x: ents[ei].x, y: ents[ei].y },
                        ],
                    },
                    None => RuleHitOut { alive: alive0, hit: false, points: Seq::empty() },
                }
            } else {
                RuleHitOut { alive: alive0, hit: false, points: Seq::empty() }
            }
        },
        None => RuleHitOut { alive: alive0, hit: false, points: Seq::empty() },
    }
}

/// Saturating score addition in milli-points.
pub open spec fn add_score(score: u64, gained: int) -> u64 {
    if score + gained > u64::MAX {
        u64::MAX
    } else {
        (score + gained) as u64
    }
}

/// Point totals never go negative.
pub proof fn lemma_rule1_gained_nonneg(ents: Seq<Entity>, k: int)
    ensures
        0 <= rule1_upto(ents, k).gained,
    decreases k,
{
    if k > 0 {
        lemma_rule1_gained_nonneg(ents, k - 1);
    }
}

/// An effect-request marker entity at `p`, as resolution spawns it.
pub open spec fn marker_entity(p: ShowBangPoint, id: u64) -> Entity {
    Entity {
        id,
        x: p.x,
        y: p.y,
        z: 0,
        radius: 0,
        velocity: None,
        player: None,
        enemy: None,
        player_shoot: None,
        enemy_shoot: None,
        auto_despawn: Some(AutoDespawn),
        start_position: None,
        bang_point: Some(p),
        bang: None,
        pattern: MotionPattern::Plain,
    }
}

/// Build the marker entity in executable code.
pub fn make_marker_entity(p: ShowBangPoint, id: u64) -> (e: Entity)
    ensures
        e == marker_entity(p, id),
{
    Entity {
        id,
        x: p.x,
        y: p.y,
        z: 0,
        radius: 0,
        velocity: None,
        player: None,
        enemy: None,
        player_shoot: None,
        enemy_shoot: None,
        auto_despawn: Some(AutoDespawn),
        start_position: None,
        bang_point: Some(p),
        bang: None,
        pattern: MotionPattern::Plain,
    }
}

/// The liveness flags left by the three rules in order.
pub open spec fn resolve_alive(ents: Seq<Entity>) -> Seq<bool> {
    rule3(ents, rule2(ents, rule1(ents).alive).alive).alive
}

/// Whether some rule killed the player this pass.
pub open spec fn resolve_hit(ents: Seq<Entity>) -> bool {
    rule2(ents, rule1(ents).alive).hit || rule3(ents, rule2(ents, rule1(ents).alive).alive).hit
}

/// All effect markers recorded by the three rules, in rule order.
pub open spec fn resolve_points(ents: Seq<Entity>) -> Seq<ShowBangPoint> {
    rule1(ents).points + rule2(ents, rule1(ents).alive).points + rule3(
        ents,
        rule2(ents, rule1(ents).alive).alive,
    ).points
}

/// The respawn timer as resolution restarts it.
pub open spec fn fresh_respawn_timer() -> Timer {
    Timer {
        duration_ms: RESPAWN_DELAY_MS,
        elapsed_ms: 0,
        mode: TimerMode::Once,
        finished: false,
        just_finished: false,
    }
}

/// The player status after resolution: the score grows by the points gained;
/// a player kill sets respawn-pending and restarts the respawn delay.
pub open spec fn resolve_status(s: GameState) -> PlayerStatus {
    PlayerStatus {
        is_spawn: s.status.is_spawn || resolve_hit(s.entities@),
        timer: if resolve_hit(s.entities@) {
            fresh_respawn_timer()
        } else {
            s.status.timer
        },
        score: add_score(s.status.score, rule1(s.entities@).gained),
    }
}

/// The identifier counter after the markers took their identifiers.
pub open spec fn resolve_next_id(s: GameState) -> u64 {
    bump_id_n(s.next_id, resolve_points(s.entities@).len() as nat)
}

/// The entity list after resolution: survivors in order, then the markers.
pub open spec fn resolve_entities(s: GameState) -> Seq<Entity> {
    keep_flagged(s.entities@, resolve_alive(s.entities@)) + Seq::new(
        resolve_points(s.entities@).len(),
        |k: int| marker_entity(resolve_points(s.entities@)[k], bump_id_n(s.next_id, k as nat)),
    )
}

/// Player projectiles against enemies, over one snapshot with shared
/// liveness flags: the greedy first-match pass of the first rule.
pub fn player_shoot_collision_system(
    ents: &Vec<Entity>,
    alive: &mut Vec<bool>,
    status: &mut PlayerStatus,
    points: &mut Vec<ShowBangPoint>,
)
    requires
        old(alive)@ == Seq::new(ents@.len(), |i: int| true),
        old(points)@ == Seq::<ShowBangPoint>::empty(),
        forall|i: int|
            0 <= i < ents@.len() ==> entity_wf(#[trigger] ents@[i]) && entity_bounded(
                ents@[i],
                POS_MAX + VEL_MAX,
            ),
    ensures
        final(alive)@.len() == old(alive)@.len(),
        final(alive)@ == rule1(ents@).alive,
        final(points)@ == rule1(ents@).points,
        final(status).score == add_score(old(status).score, rule1(ents@).gained),
        final(status).is_spawn == old(status).is_spawn,
        final(status).timer == old(status).timer,
{
    let n = ents.len();
    let mut e: usize = 0;
    while e < n
        invariant
            n == ents@.len(),
            e <= n,
            alive@.len() == n,
            forall|i: int|
                0 <= i < ents@.len() ==> entity_wf(#[trigger] ents@[i]) && entity_bounded(
                    ents@[i],
                    POS_MAX + VEL_MAX,
                ),
            alive@ == rule1_upto(ents@, e as int).alive,
            points@ == rule1_upto(ents@, e as int).points,
            status.score == add_score(old(status).score, rule1_upto(ents@, e as int).gained),
            status.is_spawn == old(status).is_spawn,
            status.timer == old(status).timer,
        decreases n - e,
    {
        let ghost st = rule1_upto(ents@, e as int);
        proof {
            assert(rule1_upto(ents@, e as int + 1) == rule1_step(ents@, st, e as int));
        }
        if alive[e] && ents[e].enemy.is_some() {
            let ghost pred = shot_hits(ents@[e as int]);
            let mut found: usize = n;
            let mut j: usize = 0;
            while j < n
                invariant
                    n == ents@.len(),
                    j <= n,
                    alive@.len() == n,
                    e < n,
                    found <= n,
                    forall|i: int|
                        0 <= i < ents@.len() ==> entity_wf(#[trigger] ents@[i]) && entity_bounded(
                            ents@[i],
                            POS_MAX + VEL_MAX,
                        ),
                    pred == shot_hits(ents@[e as int]),
                    found == n ==> first_live(ents@, alive@, pred, 0) == first_live(
                        ents@,
                        alive@,
                        pred,
                        j as int,
                    ),
                    found < n ==> first_live(ents@, alive@, pred, 0) == Some(found as int),
                decreases n - j,
            {
                if found == n {
                    let cand = &ents[j];
                    if alive[j] && cand.player_shoot.is_some() && overlap_test(&ents[e], cand) {
                        found = j;
                        proof {
                            assert(first_live(ents@, alive@, pred, j as int) == Some(j as int));
                        }
                    } else {
                        proof {
                            assert(first_live(ents@, alive@, pred, j as int) == first_live(
                                ents@,
                                alive@,
                                pred,
                                j as int + 1,
                            ));
                        }
                    }
                }
                j = j + 1;
            }
            if found < n {
                proof {
                    assert(first_live(ents@, st.alive, shot_hits(ents@[e as int]), 0) == Some(
                        found as int,
                    ));
                    assert(rule1_upto(ents@, e as int + 1).alive == st.alive.update(
                        e as int,
                        false,
                    ).update(found as int, false));
                    assert(rule1_upto(ents@, e as int + 1).points == st.points.push(
                        ShowBangPoint { x: ents@[e as int].x, y: ents@[e as int].y },
                    ));
                }
                alive.set(e, false);
                alive.set(found, false);
                let point = match &ents[e].enemy {
                    Some(en) => en.point,
                    None => 0,
                };
                proof {
                    lemma_rule1_gained_nonneg(ents@, e as int);
                }
                status.score = if status.score <= u64::MAX - point {
                    status.score + point
                } else {
                    u64::MAX
                };
                points.push(ShowBangPoint { x: ents[e].x, y: ents[e].y });
            } else {
                proof {
                    assert(first_live(ents@, alive@, pred, n as int) is None);
                    assert(first_live(ents@, st.alive, shot_hits(ents@[e as int]), 0) is None);
                }
            }
        }
        e = e + 1;
    }
}

/// Enemy projectiles against the enabled player: the second rule.
pub fn enemy_shoot_collision_system(
    ents: &Vec<Entity>,
    alive: &mut Vec<bool>,
    status: &mut PlayerStatus,
    points: &mut Vec<ShowBangPoint>,
)
    requires
        old(alive)@.len() == ents@.len(),
        forall|i: int|
            0 <= i < ents@.len() ==> entity_wf(#[trigger] ents@[i]) && entity_bounded(
                ents@[i],
                POS_MAX + VEL_MAX,
            ),
    ensures
        final(alive)@.len() == old(alive)@.len(),
        final(alive)@ == rule2(ents@, old(alive)@).alive,
        final(points)@ == old(points)@ + rule2(ents@, old(alive)@).points,
        final(status).score == old(status).score,
        final(status).is_spawn == (old(status).is_spawn || rule2(ents@, old(alive)@).hit),
        final(status).timer == if rule2(ents@, old(alive)@).hit {
            Timer {
                duration_ms: RESPAWN_DELAY_MS,
                elapsed_ms: 0,
                mode: TimerMode::Once,
                finished: false,
                just_finished: false,
            }
        } else {
            old(status).timer
        },
{
    let n = ents.len();
    let pi = find_live_player(ents, alive);
    if pi < n {
        proof {
            assert(first_live(ents@, alive@, player_pred(), 0) == Some(pi as int));
            lemma_first_live_found(ents@, alive@, player_pred(), 0);
            assert(is_player(ents@[pi as int]));
        }
        if ents[pi].player.is_some() {
            let enabled = match &ents[pi].player {
                Some(p) => p.is_enable,
                None => false,
            };
            if enabled {
                let ghost pred = enemy_shot_hits(ents@[pi as int]);
                let mut found: usize = n;
                let mut j: usize = 0;
                while j < n
                    invariant
                        n == ents@.len(),
                        j <= n,
                        alive@.len() == n,
                        pi < n,
                        found <= n,
                        forall|i: int|
                            0 <= i < ents@.len() ==> entity_wf(#[trigger] ents@[i])
                                && entity_bounded(ents@[i], POS_MAX + VEL_MAX),
                        pred == enemy_shot_hits(ents@[pi as int]),
                        found == n ==> first_live(ents@, alive@, pred, 0) == first_live(
                            ents@,
                            alive@,
                            pred,
                            j as int,
                        ),
                        found < n ==> first_live(ents@, alive@, pred, 0) == Some(found as int),
                    decreases n - j,
                {
                    if found == n {
                        let cand = &ents[j];
                        if alive[j] && cand.enemy_shoot.is_some() && overlap_test(&ents[pi], cand) {
                            found = j;
                            proof {
                                assert(first_live(ents@, alive@, pred, j as int) == Some(
                                    j as int,
                                ));
                            }
                        } else {
                            proof {
                                assert(first_live(ents@, alive@, pred, j as int) == first_live(
                                    ents@,
                                    alive@,
                                    pred,
                                    j as int + 1,
                                ));
                            }
                        }
                    }
                    j = j + 1;
                }
                if found < n {
                    alive.set(pi, false);
                    alive.set(found, false);
                    status.is_spawn = true;
                    status.timer = Timer::new(RESPAWN_DELAY_MS, TimerMode::Once);
                    points.push(ShowBangPoint { x: ents[pi].x, y: ents[pi].y });
                    proof {
                        assert(points@ =~= old(points)@ + rule2(ents@, old(alive)@).points);
                    }
                } else {
                    proof {
                        assert(first_live(ents@, alive@, pred, n as int) is None);
                        assert(points@ =~= old(points)@ + rule2(ents@, old(alive)@).points);
                    }
                }
            } else {
                proof {
                    assert(points@ =~= old(points)@ + rule2(ents@, old(alive)@).points);
                }
            }
        }
    } else {
        proof {
            assert(points@ =~= old(points)@ + rule2(ents@, old(alive)@).points);
        }
    }
}

/// The enabled player against enemies by direct contact: the third rule.
pub fn player_enemy_collision_system(
    ents: &Vec<Entity>,
    alive: &mut Vec<bool>,
    status: &mut PlayerStatus,
    points: &mut Vec<ShowBangPoint>,
)
    requires
        old(alive)@.len() == ents@.len(),
        forall|i: int|
            0 <= i < ents@.len() ==> entity_wf(#[trigger] ents@[i]) && entity_bounded(
                ents@[i],
                POS_MAX + VEL_MAX,
            ),
    ensures
        final(alive)@.len() == old(alive)@.len(),
        final(alive)@ == rule3(ents@, old(alive)@).alive,
        final(points)@ == old(points)@ + rule3(ents@, old(alive)@).points,
        final(status).score == old(status).score,
        final(status).is_spawn == (old(status).is_spawn || rule3(ents@, old(alive)@).hit),
        final(status).timer == if rule3(ents@, old(alive)@).hit {
            Timer {
                duration_ms: RESPAWN_DELAY_MS,
                elapsed_ms: 0,
                mode: TimerMode::Once,
                finished: false,
                just_finished: false,
            }
        } else {
            old(status).timer
        },
{
    let n = ents.len();
    let pi = find_live_player(ents, alive);
    if pi < n {
        proof {
            assert(first_live(ents@, alive@, player_pred(), 0) == Some(pi as int));
            lemma_first_live_found(ents@, alive@, player_pred(), 0);
            assert(is_player(ents@[pi as int]));
        }
        if ents[pi].player.is_some() {
            let enabled = match &ents[pi].player {
                Some(p) => p.is_enable,
                None => false,
            };
            if enabled {
                let ghost pred = enemy_hits(ents@[pi as int]);
                let mut found: usize = n;
                let mut j: usize = 0;
                while j < n
                    invariant
                        n == ents@.len(),
                        j <= n,
                        alive@.len() == n,
                        pi < n,
                        found <= n,
                        forall|i: int|
                            0 <= i < ents@.len() ==> entity_wf(#[trigger] ents@[i])
                                && entity_bounded(ents@[i], POS_MAX + VEL_MAX),
                        pred == enemy_hits(ents@[pi as int]),
                        found == n ==> first_live(ents@, alive@, pred, 0) == first_live(
                            ents@,
                            alive@,
                            pred,
                            j as int,
                        ),
                        found < n ==> first_live(ents@, alive@, pred, 0) == Some(found as int),
                    decreases n - j,
                {
                    if found == n {
                        let cand = &ents[j];
                        if alive[j] && cand.enemy.is_some() && overlap_test(&ents[pi], cand) {
                            found = j;
                            proof {
                                assert(first_live(ents@, alive@, pred, j as int) == Some(
                                    j as int,
                                ));
                            }
                        } else {
                            proof {
                                assert(first_live(ents@, alive@, pred, j as int) == first_live(
                                    ents@,
                                    alive@,
                                    pred,
                                    j as int + 1,
                                ));
                            }
                        }
                    }
                    j = j + 1;
                }
                if found < n {
                    alive.set(pi, false);
                    alive.set(found, false);
                    status.is_spawn = true;
                    status.timer = Timer::new(RESPAWN_DELAY_MS, TimerMode::Once);
                    points.push(ShowBangPoint { x: ents[pi].x, y: ents[pi].y });
                    points.push(ShowBangPoint { x: ents[found].x, y: ents[found].y });
                    proof {
                        assert(points@ =~= old(points)@ + rule3(ents@, old(alive)@).points);
                    }
                } else {
                    proof {
                        assert(first_live(ents@, alive@, pred, n as int) is None);
                        assert(points@ =~= old(points)@ + rule3(ents@, old(alive)@).points);
                    }
                }
            } else {
                proof {
                    assert(points@ =~= old(points)@ + rule3(ents@, old(alive)@).points);
                }
            }
        }
    } else {
        proof {
            assert(points@ =~= old(points)@ + rule3(ents@, old(alive)@).points);
        }
    }
}

/// The index of the first live player entity, or the length if none exists.
fn find_live_player(ents: &Vec<Entity>, alive: &Vec<bool>) -> (pi: usize)
    requires
        alive@.len() == ents@.len(),
    ensures
        pi <= ents@.len(),
        pi == ents@.len() ==> first_live(ents@, alive@, player_pred(), 0) is None,
        pi < ents@.len() ==> first_live(ents@, alive@, player_pred(), 0) == Some(pi as int),
{
    let n = ents.len();
    let mut j: usize = 0;
    while j < n
        invariant
            n == ents@.len(),
            alive@.len() == n,
            j <= n,
            first_live(ents@, alive@, player_pred(), 0) == first_live(
                ents@,
                alive@,
                player_pred(),
                j as int,
            ),
        decreases n - j,
    {
        if alive[j] && ents[j].player.is_some() {
            proof {
                assert(first_live(ents@, alive@, player_pred(), j as int) == Some(j as int));
            }
            return j;
        }
        proof {
            assert(first_live(ents@, alive@, player_pred(), j as int) == first_live(
                ents@,
                alive@,
                player_pred(),
                j as int + 1,
            ));
        }
        j = j + 1;
    }
    n
}

/// The liveness flags of the first rule keep the snapshot's length.
pub proof fn lemma_rule1_alive_len(ents: Seq<Entity>, k: int)
    ensures
        rule1_upto(ents, k).alive.len() == ents.len(),
    decreases k,
{
    if k > 0 {
        lemma_rule1_alive_len(ents, k - 1);
        let st = rule1_upto(ents, k - 1);
        if 0 <= k - 1 < ents.len() && st.alive[k - 1] && is_enemy(ents[k - 1]) {
            if first_live(ents, st.alive, shot_hits(ents[k - 1]), 0) is Some {
                lemma_first_live_found(ents, st.alive, shot_hits(ents[k - 1]), 0);
            }
        }
    }
}

/// Effect markers of the first rule sit at entity positions, hence in bounds.
pub proof fn lemma_rule1_points_bounded(ents: Seq<Entity>, k: int, bound: int)
    requires
        forall|i: int| 0 <= i < ents.len() ==> entity_bounded(#[trigger] ents[i], bound),
    ensures
        forall|q: int|
            0 <= q < rule1_upto(ents, k).points.len() ==> {
                &&& -bound <= #[trigger] rule1_upto(ents, k).points[q].x <= bound
                &&& -bound <= rule1_upto(ents, k).points[q].y <= bound
            },
    decreases k,
{
    if k > 0 {
        lemma_rule1_points_bounded(ents, k - 1, bound);
        let st = rule1_upto(ents, k - 1);
        if 0 <= k - 1 < ents.len() && st.alive[k - 1] && is_enemy(ents[k - 1]) {
            assert(entity_bounded(ents[k - 1], bound));
        }
    }
}

/// All effect markers of one resolution pass sit at entity positions.
pub proof fn lemma_resolve_points_bounded(ents: Seq<Entity>, bound: int)
    requires
        forall|i: int| 0 <= i < ents.len() ==> entity_bounded(#[trigger] ents[i], bound),
    ensures
        forall|q: int|
            0 <= q < resolve_points(ents).len() ==> {
                &&& -bound <= #[trigger] resolve_points(ents)[q].x <= bound
                &&& -bound <= resolve_points(ents)[q].y <= bound
            },
{
    lemma_rule1_points_bounded(ents, ents.len() as int, bound);
    let r1 = rule1(ents);
    let r2 = rule2(ents, r1.alive);
    let r3 = rule3(ents, r2.alive);
    if first_live(ents, r1.alive, player_pred(), 0) is Some {
        lemma_first_live_found(ents, r1.alive, player_pred(), 0);
        let pi = first_live(ents, r1.alive, player_pred(), 0)->Some_0;
        assert(entity_bounded(ents[pi], bound));
    }
    if first_live(ents, r2.alive, player_pred(), 0) is Some {
        lemma_first_live_found(ents, r2.alive, player_pred(), 0);
        let pi = first_live(ents, r2.alive, player_pred(), 0)->Some_0;
        assert(entity_bounded(ents[pi], bound));
        if first_live(ents, r2.alive, enemy_hits(ents[pi]), 0) is Some {
            lemma_first_live_found(ents, r2.alive, enemy_hits(ents[pi]), 0);
            let ei = first_live(ents, r2.alive, enemy_hits(ents[pi]), 0)->Some_0;
            assert(entity_bounded(ents[ei], bound));
        }
    }
    assert forall|q: int| 0 <= q < resolve_points(ents).len() implies {
        &&& -bound <= #[trigger] resolve_points(ents)[q].x <= bound
        &&& -bound <= resolve_points(ents)[q].y <= bound
    } by {
        let pts = resolve_points(ents);
        let a = r1.points;
        let b = r2.points;
        let c = r3.points;
        if q < a.len() {
            assert(pts[q] == a[q]);
        } else if q < a.len() + b.len() {
            assert(pts[q] == b[q - a.len()]);
        } else {
            assert(pts[q] == c[q - a.len() - b.len()]);
        }
    }
}

/// After a pass that killed the player, no player entity is still flagged
/// alive: with at most one player in the snapshot, the rule that reported
/// the hit cleared that player's flag and the later rule left it cleared.
pub proof fn lemma_resolve_player_gone(ents: Seq<Entity>)
    requires
        forall|i: int| 0 <= i < ents.len() ==> entity_wf(#[trigger] ents[i]),
        count_matching(ents, player_pred()) <= 1,
        resolve_hit(ents),
    ensures
        forall|i: int|
            0 <= i < ents.len() && is_player(#[trigger] ents[i]) ==> !resolve_alive(ents)[i],
{
    lemma_rule1_alive_len(ents, ents.len() as int);
    let a1 = rule1(ents).alive;
    let r2 = rule2(ents, a1);
    let a2 = r2.alive;
    let r3 = rule3(ents, a2);
    let a3 = r3.alive;
    if r2.hit {
        lemma_first_live_found(ents, a1, player_pred(), 0);
        let pi = first_live(ents, a1, player_pred(), 0)->Some_0;
        assert(is_player(ents[pi]));
        lemma_first_live_found(ents, a1, enemy_shot_hits(ents[pi]), 0);
        assert(a2[pi] == false);
        assert forall|i: int|
            0 <= i < ents.len() && is_player(#[trigger] ents[i]) implies i == pi by {
            if i != pi {
                crate::support::lemma_count_two(ents, player_pred(), i, pi);
            }
        }
        assert forall|i: int| 0 <= i < ents.len() implies !(a2[i] && player_pred()(
            #[trigger] ents[i],
        )) by {
            if is_player(ents[i]) {
                assert(i == pi);
            }
        }
        lemma_first_live_none(ents, a2, player_pred(), 0);
        assert(a3 == a2);
    } else {
        assert(r3.hit);
        assert(a2 == a1);
        lemma_first_live_found(ents, a2, player_pred(), 0);
        let pi = first_live(ents, a2, player_pred(), 0)->Some_0;
        assert(is_player(ents[pi]));
        lemma_first_live_found(ents, a2, enemy_hits(ents[pi]), 0);
        assert(a3[pi] == false);
        assert forall|i: int|
            0 <= i < ents.len() && is_player(#[trigger] ents[i]) implies i == pi by {
            if i != pi {
                crate::support::lemma_count_two(ents, player_pred(), i, pi);
            }
        }
    }
}

/// One full resolution pass over the frame snapshot.
pub open spec fn resolve_rel(a: GameState, b: GameState) -> bool {
    &&& b.entities@ == resolve_entities(a)
    &&& b.status == resolve_status(a)
    &&& b.next_id == resolve_next_id(a)
    &&& b.limit == a.limit
    &&& b.speed == a.speed
    &&& b.game_timer == a.game_timer
    &&& b.schedule == a.schedule
}

/// One full resolution pass: apply the three rules to one snapshot of the
/// frame, remove everything a rule despawned, append the recorded effect
/// markers under fresh identifiers, add the points gained to the score and
/// schedule the player respawn if the player was hit.
pub fn resolve_collisions(s: &mut GameState)
    requires
        state_inv(*old(s)),
        positions_bounded(old(s).entities@, POS_MAX + VEL_MAX),
    ensures
        resolve_rel(*old(s), *final(s)),
        state_inv(*final(s)),
        positions_bounded(final(s).entities@, POS_MAX + VEL_MAX),
{
    let ghost ents0 = s.entities@;
    let ghost id0 = s.next_id;
    let n = s.entities.len();
    let mut alive: Vec<bool> = Vec::new();
    let mut i: usize = 0;
    while i < n
        invariant
            i <= n,
            alive@.len() == i,
            forall|k: int| 0 <= k < i ==> alive@[k] == true,
        decreases n - i,
    {
        alive.push(true);
        i = i + 1;
    }
    proof {
        assert(alive@ =~= Seq::new(s.entities@.len(), |k: int| true));
    }
    let mut pts: Vec<ShowBangPoint> = Vec::new();
    player_shoot_collision_system(&s.entities, &mut alive, &mut s.status, &mut pts);
    enemy_shoot_collision_system(&s.entities, &mut alive, &mut s.status, &mut pts);
    player_enemy_collision_system(&s.entities, &mut alive, &mut s.status, &mut pts);
    proof {
        assert(pts@ =~= resolve_points(ents0));
        assert(alive@ == resolve_alive(ents0));
        assert(s.status == resolve_status(*old(s)));
    }
    let mut out: Vec<Entity> = Vec::new();
    let mut i2: usize = 0;
    while i2 < n
        invariant
            i2 <= n,
            n == s.entities@.len(),
            s.entities@ == ents0,
            alive@.len() == n,
            out@ == keep_flagged(ents0.take(i2 as int), alive@.take(i2 as int)),
        decreases n - i2,
    {
        proof {
            lemma_keep_flagged_step(ents0, alive@, i2 as int);
        }
        if alive[i2] {
            out.push(s.entities[i2]);
        }
        i2 = i2 + 1;
    }
    proof {
        assert(ents0.take(n as int) =~= ents0);
        assert(alive@.take(n as int) =~= alive@);
    }
    let ghost kept = out@;
    let m = pts.len();
    let mut j: usize = 0;
    while j < m
        invariant
            j <= m,
            m == pts@.len(),
            pts@ == resolve_points(ents0),
            kept == keep_flagged(ents0, resolve_alive(ents0)),
            out@.len() == kept.len() + j,
            forall|k: int| 0 <= k < kept.len() ==> out@[k] == kept[k],
            forall|k: int|
                0 <= k < j ==> out@[kept.len() + k] == marker_entity(
                    pts@[k],
                    bump_id_n(id0, k as nat),
                ),
            s.next_id == bump_id_n(id0, j as nat),
            s.entities@ == ents0,
            s.limit == old(s).limit,
            s.speed == old(s).speed,
            s.game_timer == old(s).game_timer,
            s.schedule == old(s).schedule,
            s.status == resolve_status(*old(s)),
        decreases m - j,
    {
        let pnt = pts[j];
        let id = s.next_id;
        if s.next_id < u64::MAX {
            s.next_id = s.next_id + 1;
        }
        out.push(make_marker_entity(pnt, id));
        j = j + 1;
    }
    s.entities = out;
    proof {
        let spawned = Seq::new(
            resolve_points(ents0).len(),
            |k: int| marker_entity(resolve_points(ents0)[k], bump_id_n(id0, k as nat)),
        );
        assert(s.entities@ =~= kept + spawned);
        assert(s.entities@ =~= resolve_entities(*old(s)));
        lemma_rule1_alive_len(ents0, ents0.len() as int);
        lemma_resolve_points_bounded(ents0, POS_MAX + VEL_MAX);
        assert forall|k: int| 0 <= k < s.entities@.len() implies entity_wf(
            #[trigger] s.entities@[k],
        ) && entity_bounded(s.entities@[k], POS_MAX + VEL_MAX) && (is_player(s.entities@[k])
            ==> {
            &&& s.limit.left + 2 * s.entities@[k].radius <= s.limit.right
            &&& s.limit.bottom + 2 * s.entities@[k].radius <= s.limit.top
        }) by {
            if k < kept.len() {
                let j2 = lemma_keep_flagged_elem(ents0, resolve_alive(ents0), k);
                assert(entity_wf(ents0[j2]));
                assert(entity_bounded(ents0[j2], POS_MAX + VEL_MAX));
                if is_player(ents0[j2]) {
                    assert(old(s).limit.left + 2 * ents0[j2].radius <= old(s).limit.right);
                    assert(old(s).limit.bottom + 2 * ents0[j2].radius <= old(s).limit.top);
                }
            } else {
                let k2 = k - kept.len();
                assert(s.entities@[k] == spawned[k2]);
                assert(-(POS_MAX + VEL_MAX) <= resolve_points(ents0)[k2].x <= POS_MAX + VEL_MAX);
            }
        }
        lemma_count_keep_flagged_le(ents0, resolve_alive(ents0), player_pred());
        assert(forall|k: int| 0 <= k < spawned.len() ==> !player_pred()(#[trigger] spawned[k]));
        lemma_count_zero(spawned, player_pred());
        lemma_count_add(kept, spawned, player_pred());
        crate::support::lemma_count_nonneg(kept, player_pred());
        if s.status.is_spawn {
            if old(s).status.is_spawn {
                assert forall|i3: int|
                    0 <= i3 < ents0.len() && player_pred()(#[trigger] ents0[i3]) implies !resolve_alive(
                    ents0,
                )[i3] by {
                    lemma_count_pos(ents0, player_pred(), i3);
                }
                lemma_count_keep_flagged_zero(ents0, resolve_alive(ents0), player_pred());
            } else {
                assert(resolve_hit(ents0));
                lemma_resolve_player_gone(ents0);
                assert forall|i3: int|
                    0 <= i3 < ents0.len() && player_pred()(#[trigger] ents0[i3]) implies !resolve_alive(
                    ents0,
                )[i3] by {
                    assert(is_player(ents0[i3]));
                }
                lemma_count_keep_flagged_zero(ents0, resolve_alive(ents0), player_pred());
            }
        }
    }
}

/// No live-pair search succeeds past `j` when the search failed.
pub proof fn lemma_first_live_none_forall(
    ents: Seq<Entity>,
    alive: Seq<bool>,
    p: spec_fn(Entity) -> bool,
    j: int,
)
    requires
        0 <= j,
        first_live(ents, alive, p, j) is None,
    ensures
        forall|i: int| j <= i < ents.len() ==> !(alive[i] && p(#[trigger] ents[i])),
    decreases ents.len() - j,
{
    if 0 <= j < ents.len() {
        lemma_first_live_none_forall(ents, alive, p, j + 1);
    }
}

/// No projectile-enemy pair in `ents` has overlapping boxes.
pub open spec fn no_shot_enemy_pairs(ents: Seq<Entity>) -> bool {
    forall|e: int, j: int|
        0 <= e < ents.len() && 0 <= j < ents.len() && is_enemy(#[trigger] ents[e])
            && is_player_shoot(#[trigger] ents[j]) ==> !overlaps(ents[e], ents[j])
}

/// No enabled player overlaps an enemy or an enemy projectile in `ents`.
pub open spec fn no_player_danger(ents: Seq<Entity>) -> bool {
    forall|p: int, j: int|
        0 <= p < ents.len() && 0 <= j < ents.len() && is_player(#[trigger] ents[p])
            && ents[p].player->Some_0.is_enable && (is_enemy_shoot(#[trigger] ents[j])
            || is_enemy(ents[j])) ==> !overlaps(ents[p], ents[j])
}

/// After the first rule, no surviving enemy still overlaps a surviving
/// player projectile.
pub proof fn lemma_rule1_post_upto(ents: Seq<Entity>, k: int)
    requires
        forall|i: int| 0 <= i < ents.len() ==> entity_wf(#[trigger] ents[i]),
    ensures
        forall|e: int, j: int|
            0 <= e < k && e < ents.len() && 0 <= j < ents.len() && rule1_upto(ents, k).alive[e]
                && rule1_upto(ents, k).alive[j] && is_enemy(#[trigger] ents[e])
                && is_player_shoot(#[trigger] ents[j]) ==> !overlaps(ents[e], ents[j]),
    decreases k,
{
    lemma_rule1_alive_len(ents, k);
    if k > 0 {
        lemma_rule1_post_upto(ents, k - 1);
        lemma_rule1_alive_len(ents, k - 1);
        let st = rule1_upto(ents, k - 1);
        let e0 = k - 1;
        if 0 <= e0 < ents.len() && st.alive[e0] && is_enemy(ents[e0]) {
            match first_live(ents, st.alive, shot_hits(ents[e0]), 0) {
                Some(jv) => {
                    lemma_first_live_found(ents, st.alive, shot_hits(ents[e0]), 0);
                    assert(is_player_shoot(ents[jv]));
                    assert forall|e: int, j: int|
                        0 <= e < k && e < ents.len() && 0 <= j < ents.len() && rule1_upto(
                            ents,
                            k,
                        ).alive[e] && rule1_upto(ents, k).alive[j] && is_enemy(#[trigger] ents[e])
                            && is_player_shoot(#[trigger] ents[j]) implies !overlaps(
                        ents[e],
                        ents[j],
                    ) by {
                        assert(st.alive[e]);
                        assert(st.alive[j]);
                        assert(e != e0);
                    }
                },
                None => {
                    lemma_first_live_none_forall(ents, st.alive, shot_hits(ents[e0]), 0);
                },
            }
        }
    }
}

/// The later rules only clear liveness flags.
pub proof fn lemma_rule2_monotone(ents: Seq<Entity>, a: Seq<bool>)
    requires
        a.len() == ents.len(),
    ensures
        rule2(ents, a).alive.len() == a.len(),
        forall|i: int| 0 <= i < a.len() && rule2(ents, a).alive[i] ==> a[i],
{
    if first_live(ents, a, player_pred(), 0) is Some {
        lemma_first_live_found(ents, a, player_pred(), 0);
        let pi = first_live(ents, a, player_pred(), 0)->Some_0;
        if ents[pi].player->Some_0.is_enable {
            if first_live(ents, a, enemy_shot_hits(ents[pi]), 0) is Some {
                lemma_first_live_found(ents, a, enemy_shot_hits(ents[pi]), 0);
            }
        }
    }
}

/// The later rules only clear liveness flags.
pub proof fn lemma_rule3_monotone(ents: Seq<Entity>, a: Seq<bool>)
    requires
        a.len() == ents.len(),
    ensures
        rule3(ents, a).alive.len() == a.len(),
        forall|i: int| 0 <= i < a.len() && rule3(ents, a).alive[i] ==> a[i],
{
    if first_live(ents, a, player_pred(), 0) is Some {
        lemma_first_live_found(ents, a, player_pred(), 0);
        let pi = first_live(ents, a, player_pred(), 0)->Some_0;
        if ents[pi].player->Some_0.is_enable {
            if first_live(ents, a, enemy_hits(ents[pi]), 0) is Some {
                lemma_first_live_found(ents, a, enemy_hits(ents[pi]), 0);
            }
        }
    }
}

/// After the second rule, no surviving enabled player still overlaps a
/// surviving enemy projectile.
pub proof fn lemma_rule2_post(ents: Seq<Entity>, a: Seq<bool>)
    requires
        a.len() == ents.len(),
        forall|i: int| 0 <= i < ents.len() ==> entity_wf(#[trigger] ents[i]),
        count_matching(ents, player_pred()) <= 1,
    ensures
        forall|p: int, j: int|
            0 <= p < ents.len() && 0 <= j < ents.len() && rule2(ents, a).alive[p] && rule2(
                ents,
                a,
            ).alive[j] && is_player(#[trigger] ents[p]) && ents[p].player->Some_0.is_enable
                && is_enemy_shoot(#[trigger] ents[j]) ==> !overlaps(ents[p], ents[j]),
{
    lemma_rule2_monotone(ents, a);
    match first_live(ents, a, player_pred(), 0) {
        Some(pi) => {
            lemma_first_live_found(ents, a, player_pred(), 0);
            assert forall|p: int, j: int|
                0 <= p < ents.len() && 0 <= j < ents.len() && rule2(ents, a).alive[p] && rule2(
                    ents,
                    a,
                ).alive[j] && is_player(#[trigger] ents[p]) && ents[p].player->Some_0.is_enable
                    && is_enemy_shoot(#[trigger] ents[j]) implies !overlaps(ents[p], ents[j]) by {
                if p != pi {
                    crate::support::lemma_count_two(ents, player_pred(), p, pi);
                }
                assert(p == pi);
                if ents[pi].player->Some_0.is_enable {
                    match first_live(ents, a, enemy_shot_hits(ents[pi]), 0) {
                        Some(si) => {
                            lemma_first_live_found(ents, a, enemy_shot_hits(ents[pi]), 0);
                            assert(!rule2(ents, a).alive[pi]);
                        },
                        None => {
                            lemma_first_live_none_forall(
                                ents,
                                a,
                                enemy_shot_hits(ents[pi]),
                                0,
                            );
                            assert(!(a[j] && enemy_shot_hits(ents[pi])(ents[j])));
                        },
                    }
                }
            }
        },
        None => {
            lemma_first_live_none_forall(ents, a, player_pred(), 0);
        },
    }
}

/// After the third rule, no surviving enabled player still overlaps a
/// surviving enemy.
pub proof fn lemma_rule3_post(ents: Seq<Entity>, a: Seq<bool>)
    requires
        a.len() == ents.len(),
        forall|i: int| 0 <= i < ents.len() ==> entity_wf(#[trigger] ents[i]),
        count_matching(ents, player_pred()) <= 1,
    ensures
        forall|p: int, j: int|
            0 <= p < ents.len() && 0 <= j < ents.len() && rule3(ents, a).alive[p] && rule3(
                ents,
                a,
            ).alive[j] && is_player(#[trigger] ents[p]) && ents[p].player->Some_0.is_enable
                && is_enemy(#[trigger] ents[j]) ==> !overlaps(ents[p], ents[j]),
{
    lemma_rule3_monotone(ents, a);
    match first_live(ents, a, player_pred(), 0) {
        Some(pi) => {
            lemma_first_live_found(ents, a, player_pred(), 0);
            assert forall|p: int, j: int|
                0 <= p < ents.len() && 0 <= j < ents.len() && rule3(ents, a).alive[p] && rule3(
                    ents,
                    a,
                ).alive[j] && is_player(#[trigger] ents[p]) && ents[p].player->Some_0.is_enable
                    && is_enemy(#[trigger] ents[j]) implies !overlaps(ents[p], ents[j]) by {
                if p != pi {
                    crate::support::lemma_count_two(ents, player_pred(), p, pi);
                }
                assert(p == pi);
                if ents[pi].player->Some_0.is_enable {
                    match first_live(ents, a, enemy_hits(ents[pi]), 0) {
                        Some(ei) => {
                            lemma_first_live_found(ents, a, enemy_hits(ents[pi]), 0);
                            assert(!rule3(ents, a).alive[pi]);
                        },
                        None => {
                            lemma_first_live_none_forall(ents, a, enemy_hits(ents[pi]), 0);
                            assert(!(a[j] && enemy_hits(ents[pi])(ents[j])));
                        },
                    }
                }
            }
        },
        None => {
            lemma_first_live_none_forall(ents, a, player_pred(), 0);
        },
    }
}

/// One resolution pass leaves no overlapping pair that any rule would still
/// act on: the survivors are mutually at peace, and markers carry no role.
pub proof fn lemma_resolution_clears_pairs(s: GameState)
    requires
        state_inv(s),
    ensures
        no_shot_enemy_pairs(resolve_entities(s)),
        no_player_danger(resolve_entities(s)),
{
    let ents = s.entities@;
    let n = ents.len() as int;
    lemma_rule1_alive_len(ents, n);
    let a1 = rule1(ents).alive;
    let a2 = rule2(ents, a1).alive;
    let a3 = rule3(ents, a2).alive;
    lemma_rule2_monotone(ents, a1);
    lemma_rule3_monotone(ents, a2);
    lemma_rule1_post_upto(ents, n);
    lemma_rule2_post(ents, a1);
    lemma_rule3_post(ents, a2);
    let out = resolve_entities(s);
    let kept = keep_flagged(ents, a3);
    assert forall|e: int, j: int|
        0 <= e < out.len() && 0 <= j < out.len() && is_enemy(#[trigger] out[e])
            && is_player_shoot(#[trigger] out[j]) implies !overlaps(out[e], out[j]) by {
        assert(out[e] == kept[e] || !is_enemy(out[e])) by {
            if e >= kept.len() {
                assert(out[e].bang_point is Some);
            }
        }
        assert(out[j] == kept[j] || !is_player_shoot(out[j])) by {
            if j >= kept.len() {
                assert(out[j].bang_point is Some);
            }
        }
        let se = lemma_keep_flagged_elem(ents, a3, e);
        let sj = lemma_keep_flagged_elem(ents, a3, j);
        assert(a1[se] && a1[sj]);
    }
    assert forall|p: int, j: int|
        0 <= p < out.len() && 0 <= j < out.len() && is_player(#[trigger] out[p])
            && out[p].player->Some_0.is_enable && (is_enemy_shoot(#[trigger] out[j]) || is_enemy(
            out[j],
        )) implies !overlaps(out[p], out[j]) by {
        assert(p < kept.len() && out[p] == kept[p]) by {
            if p >= kept.len() {
                assert(out[p].bang_point is Some);
            }
        }
        assert(j < kept.len() && out[j] == kept[j]) by {
            if j >= kept.len() {
                assert(out[j].bang_point is Some);
            }
        }
        let sp = lemma_keep_flagged_elem(ents, a3, p);
        let sj = lemma_keep_flagged_elem(ents, a3, j);
        assert(a2[sp] && a2[sj]);
        if is_enemy_shoot(out[j]) {
            assert(!overlaps(ents[sp], ents[sj]));
        } else {
            assert(!overlaps(ents[sp], ents[sj]));
        }
    }
}

/// On a frame with no overlapping pair left, resolution changes nothing.
pub proof fn lemma_resolve_identity(t: GameState)
    requires
        state_inv(t),
        no_shot_enemy_pairs(t.entities@),
        no_player_danger(t.entities@),
    ensures
        resolve_entities(t) == t.entities@,
        resolve_status(t) == t.status,
        resolve_next_id(t) == t.next_id,
{
    let ents = t.entities@;
    let n = ents.len() as int;
    lemma_rule1_no_match_identity(ents, n);
    let r1 = rule1(ents);
    assert(r1.alive =~= Seq::new(ents.len(), |i: int| true));
    assert(r1.gained == 0);
    assert(r1.points == Seq::<ShowBangPoint>::empty());
    let a1 = r1.alive;
    let r2 = rule2(ents, a1);
    assert(!r2.hit && r2.alive == a1 && r2.points == Seq::<ShowBangPoint>::empty()) by {
        match first_live(ents, a1, player_pred(), 0) {
            Some(pi) => {
                lemma_first_live_found(ents, a1, player_pred(), 0);
                if ents[pi].player->Some_0.is_enable {
                    assert forall|i: int| 0 <= i < ents.len() implies !(a1[i] && enemy_shot_hits(
                        ents[pi],
                    )(#[trigger] ents[i])) by {
                        if is_enemy_shoot(ents[i]) {
                            assert(!overlaps(ents[pi], ents[i]));
                        }
                    }
                    lemma_first_live_none(ents, a1, enemy_shot_hits(ents[pi]), 0);
                }
            },
            None => {},
        }
    }
    let r3 = rule3(ents, r2.alive);
    assert(!r3.hit && r3.alive == a1 && r3.points == Seq::<ShowBangPoint>::empty()) by {
        match first_live(ents, a1, player_pred(), 0) {
            Some(pi) => {
                lemma_first_live_found(ents, a1, player_pred(), 0);
                if ents[pi].player->Some_0.is_enable {
                    assert forall|i: int| 0 <= i < ents.len() implies !(a1[i] && enemy_hits(
                        ents[pi],
                    )(#[trigger] ents[i])) by {
                        if is_enemy(ents[i]) {
                            assert(!overlaps(ents[pi], ents[i]));
                        }
                    }
                    lemma_first_live_none(ents, a1, enemy_hits(ents[pi]), 0);
                }
            },
            None => {},
        }
    }
    assert(resolve_points(ents) =~= Seq::<ShowBangPoint>::empty());
    assert(resolve_hit(ents) == false);
    assert forall|i: int| 0 <= i < a1.len() implies #[trigger] a1[i] by {
        assert(a1[i] == Seq::new(ents.len(), |k: int| true)[i]);
    }
    crate::support::lemma_keep_flagged_all(ents, resolve_alive(ents));
    assert(resolve_entities(t) =~= ents);
    assert(resolve_status(t).score == add_score(t.status.score, 0));
    assert(add_score(t.status.score, 0) == t.status.score);
    assert(resolve_next_id(t) == bump_id_n(t.next_id, 0));
}

/// With nothing to match, the first rule is the identity.
pub proof fn lemma_rule1_no_match_identity(ents: Seq<Entity>, k: int)
    requires
        no_shot_enemy_pairs(ents),
    ensures
        rule1_upto(ents, k) == rule1_upto(ents, 0),
    decreases k,
{
    lemma_rule1_alive_len(ents, k);
    if k > 0 {
        lemma_rule1_no_match_identity(ents, k - 1);
        let st = rule1_upto(ents, k - 1);
        let e0 = k - 1;
        if 0 <= e0 < ents.len() && st.alive[e0] && is_enemy(ents[e0]) {
            assert forall|i: int| 0 <= i < ents.len() implies !(st.alive[i] && shot_hits(
                ents[e0],
            )(#[trigger] ents[i])) by {
                if is_player_shoot(ents[i]) {
                    assert(!overlaps(ents[e0], ents[i]));
                }
            }
            lemma_first_live_none(ents, st.alive, shot_hits(ents[e0]), 0);
        }
    }
}

/// Idempotence of collision resolution: a second pass over an
/// already-resolved frame, with no new entities and no motion in between,
/// changes neither the entity list, nor the score, nor the respawn state,
/// nor the identifier counter.
pub proof fn lemma_resolution_idempotent(s: GameState, t: GameState)
    requires
        state_inv(s),
        state_inv(t),
        t.entities@ == resolve_entities(s),
        t.status == resolve_status(s),
        t.next_id == resolve_next_id(s),
    ensures
        resolve_entities(t) == t.entities@,
        resolve_status(t) == t.status,
        resolve_next_id(t) == t.next_id,
{
    lemma_resolution_clears_pairs(s);
    lemma_resolve_identity(t);
}

/// With `(ie, ip)` the frame's only overlapping enemy / player-projectile
/// pair, the first rule removes exactly those two and awards exactly that
/// enemy's point value.
pub proof fn lemma_rule1_unique_upto(ents: Seq<Entity>, ie: int, ip: int, k: int)
    requires
        forall|i: int| 0 <= i < ents.len() ==> entity_wf(#[trigger] ents[i]),
        0 <= ie < ents.len(),
        0 <= ip < ents.len(),
        is_enemy(ents[ie]),
        is_player_shoot(ents[ip]),
        overlaps(ents[ie], ents[ip]),
        forall|e: int, j: int|
            0 <= e < ents.len() && 0 <= j < ents.len() && is_enemy(#[trigger] ents[e])
                && is_player_shoot(#[trigger] ents[j]) && overlaps(ents[e], ents[j])
                ==> e == ie && j == ip,
        0 <= k <= ents.len(),
    ensures
        k <= ie ==> rule1_upto(ents, k) == rule1_upto(ents, 0),
        k > ie ==> rule1_upto(ents, k) == (Rule1Out {
            alive: Seq::new(ents.len(), |i: int| true).update(ie, false).update(ip, false),
            gained: ents[ie].enemy->Some_0.point as int,
            points: Seq::<ShowBangPoint>::empty().push(
                ShowBangPoint { x: ents[ie].x, y: ents[ie].y },
            ),
        }),
    decreases k,
{
    lemma_rule1_alive_len(ents, k);
    if k > 0 {
        lemma_rule1_unique_upto(ents, ie, ip, k - 1);
        lemma_rule1_alive_len(ents, k - 1);
        let st = rule1_upto(ents, k - 1);
        let e0 = k - 1;
        if e0 < ie {
            if st.alive[e0] && is_enemy(ents[e0]) {
                assert forall|i: int| 0 <= i < ents.len() implies !(st.alive[i] && shot_hits(
                    ents[e0],
                )(#[trigger] ents[i])) by {
                    if is_player_shoot(ents[i]) && overlaps(ents[e0], ents[i]) {
                        assert(e0 == ie);
                    }
                }
                lemma_first_live_none(ents, st.alive, shot_hits(ents[e0]), 0);
            }
        } else if e0 == ie {
            assert(st == rule1_upto(ents, 0));
            assert(st.alive[e0]);
            assert(is_enemy(ents[e0]));
            let res = first_live(ents, st.alive, shot_hits(ents[e0]), 0);
            if res is None {
                lemma_first_live_none_forall(ents, st.alive, shot_hits(ents[e0]), 0);
                assert(st.alive[ip] && shot_hits(ents[e0])(ents[ip]));
                assert(false);
            }
            lemma_first_live_found(ents, st.alive, shot_hits(ents[e0]), 0);
            let f = res->Some_0;
            assert(is_player_shoot(ents[f]) && overlaps(ents[ie], ents[f]));
            assert(f == ip);
        } else {
            assert(rule1_upto(ents, k - 1) == (Rule1Out {
                alive: Seq::new(ents.len(), |i: int| true).update(ie, false).update(ip, false),
                gained: ents[ie].enemy->Some_0.point as int,
                points: Seq::<ShowBangPoint>::empty().push(
                    ShowBangPoint { x: ents[ie].x, y: ents[ie].y },
                ),
            }));
            if st.alive[e0] && is_enemy(ents[e0]) {
                assert forall|i: int| 0 <= i < ents.len() implies !(st.alive[i] && shot_hits(
                    ents[e0],
                )(#[trigger] ents[i])) by {
                    if is_player_shoot(ents[i]) && overlaps(ents[e0], ents[i]) {
                        assert(e0 == ie);
                        assert(!st.alive[ie]);
                    }
                }
                lemma_first_live_none(ents, st.alive, shot_hits(ents[e0]), 0);
            }
        }
    }
}

/// Law: when a player projectile and an enemy overlap, and they are the
/// frame's only overlapping projectile-enemy pair while the player itself
/// touches nothing, one resolution pass removes exactly that projectile and
/// that enemy, spawns one effect marker at the enemy's last position, adds
/// exactly the enemy's point value to the score, and leaves the respawn
/// state alone; the removed pair is matched by no further rule.
pub proof fn lemma_projectile_hit_resolution(s: GameState, ie: int, ip: int)
    requires
        state_inv(s),
        0 <= ie < s.entities@.len(),
        0 <= ip < s.entities@.len(),
        is_enemy(s.entities@[ie]),
        is_player_shoot(s.entities@[ip]),
        overlaps(s.entities@[ie], s.entities@[ip]),
        forall|e: int, j: int|
            0 <= e < s.entities@.len() && 0 <= j < s.entities@.len() && is_enemy(
                #[trigger] s.entities@[e],
            ) && is_player_shoot(#[trigger] s.entities@[j]) && overlaps(
                s.entities@[e],
                s.entities@[j],
            ) ==> e == ie && j == ip,
        no_player_danger(s.entities@),
    ensures
        resolve_alive(s.entities@) == Seq::new(
            s.entities@.len(),
            |i: int| i != ie && i != ip,
        ),
        resolve_entities(s) == keep_flagged(
            s.entities@,
            Seq::new(s.entities@.len(), |i: int| i != ie && i != ip),
        ) + seq![
            marker_entity(
                ShowBangPoint { x: s.entities@[ie].x, y: s.entities@[ie].y },
                s.next_id,
            ),
        ],
        resolve_status(s).score == add_score(
            s.status.score,
            s.entities@[ie].enemy->Some_0.point as int,
        ),
        s.status.score + s.entities@[ie].enemy->Some_0.point <= u64::MAX
            ==> resolve_status(s).score == s.status.score
            + s.entities@[ie].enemy->Some_0.point,
        resolve_status(s).is_spawn == s.status.is_spawn,
        resolve_status(s).timer == s.status.timer,
{
    let ents = s.entities@;
    let n = ents.len() as int;
    lemma_rule1_unique_upto(ents, ie, ip, n);
    let r1 = rule1(ents);
    let a1 = r1.alive;
    lemma_rule1_alive_len(ents, n);
    let r2 = rule2(ents, a1);
    assert(!r2.hit && r2.alive == a1 && r2.points == Seq::<ShowBangPoint>::empty()) by {
        match first_live(ents, a1, player_pred(), 0) {
            Some(pi) => {
                lemma_first_live_found(ents, a1, player_pred(), 0);
                if ents[pi].player->Some_0.is_enable {
                    assert forall|i: int| 0 <= i < ents.len() implies !(a1[i] && enemy_shot_hits(
                        ents[pi],
                    )(#[trigger] ents[i])) by {
                        if is_enemy_shoot(ents[i]) {
                            assert(!overlaps(ents[pi], ents[i]));
                        }
                    }
                    lemma_first_live_none(ents, a1, enemy_shot_hits(ents[pi]), 0);
                }
            },
            None => {},
        }
    }
    let r3 = rule3(ents, r2.alive);
    assert(!r3.hit && r3.alive == a1 && r3.points == Seq::<ShowBangPoint>::empty()) by {
        match first_live(ents, a1, player_pred(), 0) {
            Some(pi) => {
                lemma_first_live_found(ents, a1, player_pred(), 0);
                if ents[pi].player->Some_0.is_enable {
                    assert forall|i: int| 0 <= i < ents.len() implies !(a1[i] && enemy_hits(
                        ents[pi],
                    )(#[trigger] ents[i])) by {
                        if is_enemy(ents[i]) {
                            assert(!overlaps(ents[pi], ents[i]));
                        }
                    }
                    lemma_first_live_none(ents, a1, enemy_hits(ents[pi]), 0);
                }
            },
            None => {},
        }
    }
    assert(resolve_points(ents) =~= r1.points);
    assert(resolve_points(ents) =~= seq![ShowBangPoint { x: ents[ie].x, y: ents[ie].y }]);
    assert(resolve_alive(ents) =~= Seq::new(ents.len(), |i: int| i != ie && i != ip));
    assert(resolve_entities(s) =~= keep_flagged(
        ents,
        Seq::new(ents.len(), |i: int| i != ie && i != ip),
    ) + seq![
        marker_entity(ShowBangPoint { x: ents[ie].x, y: ents[ie].y }, s.next_id),
    ]) by {
        assert(resolve_alive(ents) == Seq::new(ents.len(), |i: int| i != ie && i != ip));
        let pts = resolve_points(ents);
        assert(pts.len() == 1);
        assert(pts[0] == ShowBangPoint { x: ents[ie].x, y: ents[ie].y });
        assert(bump_id_n(s.next_id, 0nat) == s.next_id);
        assert(Seq::new(pts.len(), |k: int| marker_entity(pts[k], bump_id_n(s.next_id, k as nat)))
            =~= seq![marker_entity(ShowBangPoint { x: ents[ie].x, y: ents[ie].y }, s.next_id)]);
    }
    assert(resolve_hit(ents) == false);
}

/// Sum of the point values of the still-live enemies at positions below `k`.
pub open spec fn live_points_upto(ents: Seq<Entity>, alive: Seq<bool>, k: int) -> int
    decreases k,
{
    if k <= 0 {
        0
    } else {
        live_points_upto(ents, alive, k - 1) + if 0 <= k - 1 < ents.len() && alive[k - 1]
            && is_enemy(ents[k - 1]) {
            ents[k - 1].enemy->Some_0.point as int
        } else {
            0int
        }
    }
}

/// Sum of the point values of all still-live enemies.
pub open spec fn live_points(ents: Seq<Entity>, alive: Seq<bool>) -> int {
    live_points_upto(ents, alive, ents.len() as int)
}

/// Live enemy points never sum below zero.
pub proof fn lemma_live_points_nonneg(ents: Seq<Entity>, alive: Seq<bool>, k: int)
    ensures
        0 <= live_points_upto(ents, alive, k),
    decreases k,
{
    if k > 0 {
        lemma_live_points_nonneg(ents, alive, k - 1);
    }
}

/// Clearing one flag removes exactly that entity's contribution.
pub proof fn lemma_live_points_update(ents: Seq<Entity>, alive: Seq<bool>, j: int, k: int)
    requires
        0 <= j < ents.len(),
        alive.len() == ents.len(),
    ensures
        live_points_upto(ents, alive.update(j, false), k) == live_points_upto(ents, alive, k)
            - if j < k && alive[j] && is_enemy(ents[j]) {
            ents[j].enemy->Some_0.point as int
        } else {
            0int
        },
    decreases k,
{
    if k > 0 {
        lemma_live_points_update(ents, alive, j, k - 1);
    }
}

/// Score conservation through the first rule: the points gained so far plus
/// the points of the still-live enemies equal the points of the enemies
/// that entered the pass — so each enemy's point value is added to the
/// score at most once, however many projectiles overlap it.
pub proof fn lemma_rule1_score_conservation(ents: Seq<Entity>, k: int)
    requires
        forall|i: int| 0 <= i < ents.len() ==> entity_wf(#[trigger] ents[i]),
        0 <= k,
    ensures
        rule1_upto(ents, k).gained + live_points(ents, rule1_upto(ents, k).alive) == live_points(
            ents,
            rule1_upto(ents, 0).alive,
        ),
    decreases k,
{
    lemma_rule1_alive_len(ents, k);
    if k > 0 {
        lemma_rule1_score_conservation(ents, k - 1);
        lemma_rule1_alive_len(ents, k - 1);
        let st = rule1_upto(ents, k - 1);
        let e0 = k - 1;
        if 0 <= e0 < ents.len() && st.alive[e0] && is_enemy(ents[e0]) {
            match first_live(ents, st.alive, shot_hits(ents[e0]), 0) {
                Some(jv) => {
                    lemma_first_live_found(ents, st.alive, shot_hits(ents[e0]), 0);
                    assert(is_player_shoot(ents[jv]));
                    assert(!is_enemy(ents[jv]));
                    let a1 = st.alive.update(e0, false);
                    lemma_live_points_update(ents, st.alive, e0, ents.len() as int);
                    lemma_live_points_update(ents, a1, jv, ents.len() as int);
                },
                None => {},
            }
        }
    }
}

/// Law: one resolution pass awards in total at most the point value of each
/// enemy once — what the score gains, the pool of live enemy points loses.
pub proof fn lemma_score_awarded_at_most_once(ents: Seq<Entity>)
    requires
        forall|i: int| 0 <= i < ents.len() ==> entity_wf(#[trigger] ents[i]),
    ensures
        rule1(ents).gained + live_points(ents, rule1(ents).alive) == live_points(
            ents,
            Seq::new(ents.len(), |i: int| true),
        ),
        0 <= rule1(ents).gained <= live_points(ents, Seq::new(ents.len(), |i: int| true)),
{
    lemma_rule1_score_conservation(ents, ents.len() as int);
    lemma_rule1_gained_nonneg(ents, ents.len() as int);
    lemma_live_points_nonneg(ents, rule1(ents).alive, ents.len() as int);
}

} // verus!
