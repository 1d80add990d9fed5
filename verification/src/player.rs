//! The player's lifecycle and input handling: respawn after the delay, the
//! spawn-in entry animation, movement, firing in the selected shoot mode and
//! switching that mode.

use vstd::prelude::*;
use vstd::pervasive::VecAdditionalExecFns;
use crate::define::{
    AutoDespawn, Entity, FromPlayerShoot, GameState, InputState, MotionPattern, Player,
    PlayerStartPosition, ShootType, Velocity, entity_bounded, entity_wf, is_player, player_pred,
    state_wf, bump_id, bump_id_n, ENTRY_ALTITUDE_FACTOR, ENTRY_STEP, PLAYER_DEPTH, PLAYER_RADIUS,
    PLAYER_VELOCITY, POS_MAX, SHOOT_RADIUS, SHOOT_VELOCITY,
};
use crate::timer::DELTA_MAX_MS;
use crate::patterns::clamp_pos;
use crate::support::{count_matching, lemma_count_congruent};

verus! {

/// A freshly respawned player: disabled, in its entry animation, at the
/// start offset below the field, with the plain shoot mode.
pub open spec fn player_entity(id: u64, y: i64) -> Entity {
    Entity {
        id,
        x: 0,
        y,
        z: PLAYER_DEPTH,
        radius: PLAYER_RADIUS,
        velocity: None,
        player: Some(Player { is_enable: false, shoot_type: ShootType::Normal }),
        enemy: None,
        player_shoot: None,
        enemy_shoot: None,
        auto_despawn: None,
        start_position: Some(PlayerStartPosition),
        bang_point: None,
        bang: None,
        pattern: MotionPattern::Plain,
    }
}

/// One frame of the respawn machinery: while a respawn is pending the delay
/// timer runs, and its completion creates the new disabled player.
pub open spec fn respawn_rel(a: GameState, b: GameState, delta: u64) -> bool {
    &&& b.limit == a.limit
    &&& b.speed == a.speed
    &&& b.game_timer == a.game_timer
    &&& b.schedule == a.schedule
    &&& b.status.score == a.status.score
    &&& (!a.status.is_spawn ==> b == a)
    &&& (a.status.is_spawn ==> {
        &&& b.status.timer == a.status.timer.spec_tick(delta)
        &&& b.status.is_spawn == !a.status.timer.spec_tick(delta).just_finished
        &&& (a.status.timer.spec_tick(delta).just_finished ==> {
            &&& b.entities@ == a.entities@.push(
                player_entity(a.next_id, (a.limit.bottom + PLAYER_RADIUS) as i64),
            )
            &&& b.next_id == bump_id(a.next_id)
        })
        &&& (!a.status.timer.spec_tick(delta).just_finished ==> {
            &&& b.entities@ == a.entities@
            &&& b.next_id == a.next_id
        })
    })
}

/// Run the respawn delay while a respawn is pending; when it completes,
/// create the new player entity at the fixed start offset, disabled.
pub fn player_status_system(s: &mut GameState, delta_ms: u64)
    requires
        state_wf(*old(s)),
        delta_ms <= DELTA_MAX_MS,
    ensures
        state_wf(*final(s)),
        respawn_rel(*old(s), *final(s), delta_ms),
{
    if s.status.is_spawn {
        let fired = s.status.timer.tick(delta_ms);
        if fired {
            let id = s.next_id;
            if s.next_id < u64::MAX {
                s.next_id = s.next_id + 1;
            }
            let y = s.limit.bottom + PLAYER_RADIUS;
            let e = Entity {
                id,
                x: 0,
                y,
                z: PLAYER_DEPTH,
                radius: PLAYER_RADIUS,
                velocity: None,
                player: Some(Player { is_enable: false, shoot_type: ShootType::Normal }),
                enemy: None,
                player_shoot: None,
                enemy_shoot: None,
                auto_despawn: None,
                start_position: Some(PlayerStartPosition),
                bang_point: None,
                bang: None,
                pattern: MotionPattern::Plain,
            };
            s.entities.push(e);
            s.status.is_spawn = false;
            proof {
                let ents = s.entities@;
                let olds = old(s).entities@;
                assert(ents.drop_last() =~= olds);
                assert forall|k: int| 0 <= k < ents.len() implies entity_wf(#[trigger] ents[k])
                    && entity_bounded(ents[k], POS_MAX as int) && (is_player(ents[k]) ==> {
                    &&& s.limit.left + 2 * ents[k].radius <= s.limit.right
                    &&& s.limit.bottom + 2 * ents[k].radius <= s.limit.top
                }) by {
                    if k < olds.len() {
                        assert(entity_wf(olds[k]));
                        assert(entity_bounded(olds[k], POS_MAX as int));
                    }
                }
                assert(count_matching(olds, player_pred()) == 0);
                assert(count_matching(ents, player_pred()) == 1);
            }
        }
    }
}

/// One entry-animation step: a player still marked with its start position
/// rises by a fixed increment until it crosses the operating line, where it
/// becomes enabled and sheds the marker.
pub open spec fn entry_stepped(e: Entity, bottom: i64) -> Entity {
    if e.start_position is Some {
        if e.y >= bottom + ENTRY_ALTITUDE_FACTOR * PLAYER_RADIUS {
            Entity {
                player: Some(
                    Player { is_enable: true, shoot_type: e.player->Some_0.shoot_type },
                ),
                start_position: None,
                ..e
            }
        } else {
            Entity { y: (e.y + ENTRY_STEP) as i64, ..e }
        }
    } else {
        e
    }
}

/// One entry-animation frame over the whole entity list.
pub open spec fn entry_rel(a: GameState, b: GameState) -> bool {
    &&& crate::common::same_resources(a, b)
    &&& b.entities@.len() == a.entities@.len()
    &&& forall|i: int|
        0 <= i < a.entities@.len() ==> b.entities@[i] == entry_stepped(
            #[trigger] a.entities@[i],
            a.limit.bottom,
        )
}

/// Raise the spawning player towards the operating line and enable it once
/// the line is crossed.
pub fn player_start_position(s: &mut GameState)
    requires
        state_wf(*old(s)),
    ensures
        state_wf(*final(s)),
        entry_rel(*old(s), *final(s)),
{
    let n = s.entities.len();
    let threshold = s.limit.bottom + ENTRY_ALTITUDE_FACTOR * PLAYER_RADIUS;
    let mut i: usize = 0;
    while i < n
        invariant
            state_wf(*old(s)),
            n == s.entities@.len(),
            n == old(s).entities@.len(),
            i <= n,
            threshold == old(s).limit.bottom + ENTRY_ALTITUDE_FACTOR * PLAYER_RADIUS,
            crate::common::same_resources(*old(s), *s),
            forall|k: int|
                0 <= k < i ==> s.entities@[k] == entry_stepped(
                    #[trigger] old(s).entities@[k],
                    old(s).limit.bottom,
                ),
            forall|k: int| i <= k < n ==> s.entities@[k] == #[trigger] old(s).entities@[k],
        decreases n - i,
    {
        proof {
            assert(entity_wf(old(s).entities@[i as int]));
            assert(entity_bounded(old(s).entities@[i as int], POS_MAX as int));
        }
        let mut e = s.entities[i];
        match e.start_position {
            Some(_m) => {
                if e.y >= threshold {
                    let st = match e.player {
                        Some(p) => p.shoot_type,
                        None => ShootType::Normal,
                    };
                    e.player = Some(Player { is_enable: true, shoot_type: st });
                    e.start_position = None;
                } else {
                    e.y = e.y + ENTRY_STEP;
                }
                s.entities.set(i, e);
            },
            None => {},
        }
        i = i + 1;
    }
    proof {
        assert forall|k: int| 0 <= k < n implies entity_wf(#[trigger] s.entities@[k])
            && entity_bounded(s.entities@[k], POS_MAX as int) && (is_player(s.entities@[k]) ==> {
            &&& s.limit.left + 2 * s.entities@[k].radius <= s.limit.right
            &&& s.limit.bottom + 2 * s.entities@[k].radius <= s.limit.top
        }) by {
            assert(entity_wf(old(s).entities@[k]));
            assert(entity_bounded(old(s).entities@[k], POS_MAX as int));
            if is_player(old(s).entities@[k]) {
                assert(old(s).limit.left + 2 * old(s).entities@[k].radius <= old(s).limit.right);
                assert(old(s).limit.bottom + 2 * old(s).entities@[k].radius <= old(s).limit.top);
            }
        }
        lemma_count_congruent(s.entities@, old(s).entities@, player_pred());
    }
}

/// One frame of held-key movement for an enabled player: each axis moves by
/// the player speed scaled by the global multiplier, saturating only at the
/// representable world range.
pub open spec fn player_moved(e: Entity, input: InputState, speed: int) -> Entity {
    if e.player->Some_0.is_enable {
        let dx = (if input.right {
            speed
        } else {
            0int
        }) - (if input.left {
            speed
        } else {
            0int
        });
        let dy = (if input.up {
            speed
        } else {
            0int
        }) - (if input.down {
            speed
        } else {
            0int
        });
        Entity { x: clamp_pos(e.x + dx), y: clamp_pos(e.y + dy), ..e }
    } else {
        e
    }
}

/// One frame of held-key movement over the whole entity list.
pub open spec fn move_rel(a: GameState, b: GameState, input: InputState) -> bool {
    &&& crate::common::same_resources(a, b)
    &&& b.entities@.len() == a.entities@.len()
    &&& forall|i: int|
        0 <= i < a.entities@.len() && is_player(#[trigger] a.entities@[i]) ==> b.entities@[i]
            == player_moved(
            a.entities@[i],
            input,
            (PLAYER_VELOCITY as int) * a.speed.value / 1000,
        )
    &&& forall|i: int|
        0 <= i < a.entities@.len() && !is_player(#[trigger] a.entities@[i]) ==> b.entities@[i]
            == a.entities@[i]
}

/// Move the enabled player by the held direction keys.
pub fn player_move_system(s: &mut GameState, input: InputState)
    requires
        state_wf(*old(s)),
    ensures
        state_wf(*final(s)),
        move_rel(*old(s), *final(s), input),
{
    let n = s.entities.len();
    let speed = ((PLAYER_VELOCITY as u64 * s.speed.value) / 1000) as i64;
    proof {
        assert(speed == (PLAYER_VELOCITY as int) * old(s).speed.value / 1000);
        assert(speed <= 3 * crate::define::SPEED_CAP);
    }
    let mut i: usize = 0;
    while i < n
        invariant
            state_wf(*old(s)),
            n == s.entities@.len(),
            n == old(s).entities@.len(),
            i <= n,
            0 <= speed <= 3 * crate::define::SPEED_CAP,
            speed == (PLAYER_VELOCITY as int) * old(s).speed.value / 1000,
            crate::common::same_resources(*old(s), *s),
            forall|k: int|
                0 <= k < i && is_player(#[trigger] old(s).entities@[k]) ==> s.entities@[k]
                    == player_moved(old(s).entities@[k], input, speed as int),
            forall|k: int|
                0 <= k < i && !is_player(#[trigger] old(s).entities@[k]) ==> s.entities@[k]
                    == old(s).entities@[k],
            forall|k: int| i <= k < n ==> s.entities@[k] == #[trigger] old(s).entities@[k],
        decreases n - i,
    {
        proof {
            assert(entity_wf(old(s).entities@[i as int]));
            assert(entity_bounded(old(s).entities@[i as int], POS_MAX as int));
        }
        let mut e = s.entities[i];
        match e.player {
            Some(p) => {
                if p.is_enable {
                    let mut dx: i64 = 0;
                    let mut dy: i64 = 0;
                    if input.right {
                        dx = dx + speed;
                    }
                    if input.left {
                        dx = dx - speed;
                    }
                    if input.up {
                        dy = dy + speed;
                    }
                    if input.down {
                        dy = dy - speed;
                    }
                    let nx = e.x + dx;
                    e.x = if nx > POS_MAX {
                        POS_MAX
                    } else if nx < -POS_MAX {
                        -POS_MAX
                    } else {
                        nx
                    };
                    let ny = e.y + dy;
                    e.y = if ny > POS_MAX {
                        POS_MAX
                    } else if ny < -POS_MAX {
                        -POS_MAX
                    } else {
                        ny
                    };
                }
                s.entities.set(i, e);
            },
            None => {},
        }
        i = i + 1;
    }
    proof {
        assert forall|k: int| 0 <= k < n implies entity_wf(#[trigger] s.entities@[k])
            && entity_bounded(s.entities@[k], POS_MAX as int) && (is_player(s.entities@[k]) ==> {
            &&& s.limit.left + 2 * s.entities@[k].radius <= s.limit.right
            &&& s.limit.bottom + 2 * s.entities@[k].radius <= s.limit.top
        }) by {
            assert(entity_wf(old(s).entities@[k]));
            assert(entity_bounded(old(s).entities@[k], POS_MAX as int));
            if is_player(old(s).entities@[k]) {
                assert(old(s).limit.left + 2 * old(s).entities@[k].radius <= old(s).limit.right);
                assert(old(s).limit.bottom + 2 * old(s).entities@[k].radius <= old(s).limit.top);
            }
        }
        lemma_count_congruent(s.entities@, old(s).entities@, player_pred());
    }
}

/// The selected shoot mode after one frame of mode keys; with several keys
/// pressed at once the widest mode wins.
pub open spec fn retyped(e: Entity, input: InputState) -> Entity {
    if is_player(e) {
        let st = if input.select_triple {
            ShootType::Triple
        } else if input.select_double {
            ShootType::Double
        } else if input.select_normal {
            ShootType::Normal
        } else {
            e.player->Some_0.shoot_type
        };
        Entity {
            player: Some(Player { is_enable: e.player->Some_0.is_enable, shoot_type: st }),
            ..e
        }
    } else {
        e
    }
}

/// One frame of the mode-select keys over the whole entity list.
pub open spec fn retype_rel(a: GameState, b: GameState, input: InputState) -> bool {
    &&& crate::common::same_resources(a, b)
    &&& b.entities@.len() == a.entities@.len()
    &&& forall|i: int|
        0 <= i < a.entities@.len() ==> b.entities@[i] == retyped(
            #[trigger] a.entities@[i],
            input,
        )
}

/// Switch the player's shoot mode on the mode-select keys.
pub fn player_shoot_type(s: &mut GameState, input: InputState)
    requires
        state_wf(*old(s)),
    ensures
        state_wf(*final(s)),
        retype_rel(*old(s), *final(s), input),
{
    let n = s.entities.len();
    let mut i: usize = 0;
    while i < n
        invariant
            state_wf(*old(s)),
            n == s.entities@.len(),
            n == old(s).entities@.len(),
            i <= n,
            crate::common::same_resources(*old(s), *s),
            forall|k: int|
                0 <= k < i ==> s.entities@[k] == retyped(#[trigger] old(s).entities@[k], input),
            forall|k: int| i <= k < n ==> s.entities@[k] == #[trigger] old(s).entities@[k],
        decreases n - i,
    {
        proof {
            assert(entity_wf(old(s).entities@[i as int]));
        }
        let mut e = s.entities[i];
        match e.player {
            Some(p) => {
                let st = if input.select_triple {
                    ShootType::Triple
                } else if input.select_double {
                    ShootType::Double
                } else if input.select_normal {
                    ShootType::Normal
                } else {
                    p.shoot_type
                };
                e.player = Some(Player { is_enable: p.is_enable, shoot_type: st });
                s.entities.set(i, e);
            },
            None => {},
        }
        i = i + 1;
    }
    proof {
        assert forall|k: int| 0 <= k < n implies entity_wf(#[trigger] s.entities@[k])
            && entity_bounded(s.entities@[k], POS_MAX as int) && (is_player(s.entities@[k]) ==> {
            &&& s.limit.left + 2 * s.entities@[k].radius <= s.limit.right
            &&& s.limit.bottom + 2 * s.entities@[k].radius <= s.limit.top
        }) by {
            assert(entity_wf(old(s).entities@[k]));
            assert(entity_bounded(old(s).entities@[k], POS_MAX as int));
            if is_player(old(s).entities@[k]) {
                assert(old(s).limit.left + 2 * old(s).entities@[k].radius <= old(s).limit.right);
                assert(old(s).limit.bottom + 2 * old(s).entities@[k].radius <= old(s).limit.top);
            }
        }
        lemma_count_congruent(s.entities@, old(s).entities@, player_pred());
    }
}

/// The first player index, if any player exists.
pub open spec fn player_index_from(ents: Seq<Entity>, j: int) -> Option<int>
    decreases ents.len() - j,
{
    if !(0 <= j < ents.len()) {
        None
    } else if is_player(ents[j]) {
        Some(j)
    } else {
        player_index_from(ents, j + 1)
    }
}

/// A projectile fired by the player.
pub open spec fn player_shot_entity(x: i64, y: i64, vx: i64, vy: i64, id: u64) -> Entity {
    Entity {
        id,
        x,
        y,
        z: 0,
        radius: SHOOT_RADIUS,
        velocity: Some(Velocity { x: vx, y: vy }),
        player: None,
        enemy: None,
        player_shoot: Some(FromPlayerShoot),
        enemy_shoot: None,
        auto_despawn: Some(AutoDespawn),
        start_position: None,
        bang_point: None,
        bang: None,
        pattern: MotionPattern::Plain,
    }
}

/// The projectiles of one fire press: one straight shot, two diverging
/// shots offset by the player radius, or all three, depending on the mode.
/// `v` is the base shot speed scaled by the global multiplier.
pub open spec fn shots_for(e: Entity, v: int, id0: u64) -> Seq<Entity> {
    match e.player->Some_0.shoot_type {
        ShootType::Normal => seq![player_shot_entity(e.x, e.y, 0, v as i64, id0)],
        ShootType::Double => seq![
            player_shot_entity(
                clamp_pos(e.x - PLAYER_RADIUS),
                e.y,
                (-(v / 2)) as i64,
                v as i64,
                id0,
            ),
            player_shot_entity(
                clamp_pos(e.x + PLAYER_RADIUS),
                e.y,
                (v / 2) as i64,
                v as i64,
                bump_id_n(id0, 1),
            ),
        ],
        ShootType::Triple => seq![
            player_shot_entity(e.x, e.y, 0, v as i64, id0),
            player_shot_entity(
                clamp_pos(e.x - PLAYER_RADIUS),
                e.y,
                (-(v / 2)) as i64,
                v as i64,
                bump_id_n(id0, 1),
            ),
            player_shot_entity(
                clamp_pos(e.x + PLAYER_RADIUS),
                e.y,
                (v / 2) as i64,
                v as i64,
                bump_id_n(id0, 2),
            ),
        ],
    }
}

/// Fire on the pressed edge of the fire key: the enabled player spawns its
/// mode's projectiles, each moving up at the base shot speed scaled by the
/// global multiplier, the diverging pair at half that speed sideways.
/// One frame of the fire key: the enabled player's mode projectiles are
/// appended exactly when the press lands; otherwise nothing changes.
pub open spec fn shoot_rel(a: GameState, b: GameState, input: InputState) -> bool {
    &&& b.limit == a.limit
    &&& b.status == a.status
    &&& b.speed == a.speed
    &&& b.game_timer == a.game_timer
    &&& b.schedule == a.schedule
    &&& ({
        let found = player_index_from(a.entities@, 0);
        let firing = input.fire && found is Some && a.entities@[found->Some_0]
            .player->Some_0.is_enable;
        if firing {
            let shots = shots_for(
                a.entities@[found->Some_0],
                (SHOOT_VELOCITY as int) * a.speed.value / 1000,
                a.next_id,
            );
            &&& b.entities@ == a.entities@ + shots
            &&& b.next_id == bump_id_n(a.next_id, shots.len() as nat)
        } else {
            &&& b.entities@ == a.entities@
            &&& b.next_id == a.next_id
        }
    })
}

pub fn player_shoot_system(s: &mut GameState, input: InputState)
    requires
        state_wf(*old(s)),
    ensures
        state_wf(*final(s)),
        shoot_rel(*old(s), *final(s), input),
{
    let n = s.entities.len();
    if !input.fire {
        return ;
    }
    let mut pi: usize = n;
    let mut j: usize = 0;
    while j < n
        invariant
            n == s.entities@.len(),
            j <= n,
            pi <= n,
            pi == n ==> player_index_from(s.entities@, 0) == player_index_from(
                s.entities@,
                j as int,
            ),
            pi < n ==> player_index_from(s.entities@, 0) == Some(pi as int),
            pi < n ==> is_player(s.entities@[pi as int]),
        decreases n - j,
    {
        if pi == n {
            if s.entities[j].player.is_some() {
                pi = j;
                proof {
                    assert(player_index_from(s.entities@, j as int) == Some(j as int));
                }
            } else {
                proof {
                    assert(player_index_from(s.entities@, j as int) == player_index_from(
                        s.entities@,
                        j as int + 1,
                    ));
                }
            }
        }
        j = j + 1;
    }
    if pi == n {
        proof {
            assert(player_index_from(s.entities@, n as int) is None);
        }
        return ;
    }
    let pl = s.entities[pi];
    let enabled = match pl.player {
        Some(p) => p.is_enable,
        None => false,
    };
    if !enabled {
        return ;
    }
    proof {
        assert(entity_wf(old(s).entities@[pi as int]));
        assert(entity_bounded(old(s).entities@[pi as int], POS_MAX as int));
    }
    let ghost id0 = s.next_id;
    let v = ((SHOOT_VELOCITY as u64 * s.speed.value) / 1000) as i64;
    proof {
        assert(v == (SHOOT_VELOCITY as int) * old(s).speed.value / 1000);
        assert(0 <= v <= 3 * crate::define::SPEED_CAP);
    }
    let half = ((v as u64) / 2) as i64;
    let shoot_type = match pl.player {
        Some(p) => p.shoot_type,
        None => ShootType::Normal,
    };
    let xl = if pl.x - PLAYER_RADIUS < -POS_MAX {
        -POS_MAX
    } else {
        pl.x - PLAYER_RADIUS
    };
    let xr = if pl.x + PLAYER_RADIUS > POS_MAX {
        POS_MAX
    } else {
        pl.x + PLAYER_RADIUS
    };
    match shoot_type {
        ShootType::Normal => {
            let id = s.next_id;
            if s.next_id < u64::MAX {
                s.next_id = s.next_id + 1;
            }
            s.entities.push(make_player_shot(pl.x, pl.y, 0, v, id));
        },
        ShootType::Double => {
            let id = s.next_id;
            if s.next_id < u64::MAX {
                s.next_id = s.next_id + 1;
            }
            s.entities.push(make_player_shot(xl, pl.y, -half, v, id));
            let id2 = s.next_id;
            if s.next_id < u64::MAX {
                s.next_id = s.next_id + 1;
            }
            s.entities.push(make_player_shot(xr, pl.y, half, v, id2));
        },
        ShootType::Triple => {
            let id = s.next_id;
            if s.next_id < u64::MAX {
                s.next_id = s.next_id + 1;
            }
            s.entities.push(make_player_shot(pl.x, pl.y, 0, v, id));
            let id2 = s.next_id;
            if s.next_id < u64::MAX {
                s.next_id = s.next_id + 1;
            }
            s.entities.push(make_player_shot(xl, pl.y, -half, v, id2));
            let id3 = s.next_id;
            if s.next_id < u64::MAX {
                s.next_id = s.next_id + 1;
            }
            s.entities.push(make_player_shot(xr, pl.y, half, v, id3));
        },
    }
    proof {
        let shots = shots_for(old(s).entities@[pi as int], v as int, id0);
        assert(bump_id_n(id0, 0) == id0);
        assert(bump_id_n(id0, 1) == bump_id(bump_id_n(id0, 0)));
        assert(bump_id_n(id0, 2) == bump_id(bump_id_n(id0, 1)));
        assert(bump_id_n(id0, 3) == bump_id(bump_id_n(id0, 2)));
        assert(s.entities@ =~= old(s).entities@ + shots);
        let ents = s.entities@;
        let olds = old(s).entities@;
        assert forall|k: int| 0 <= k < ents.len() implies entity_wf(#[trigger] ents[k])
            && entity_bounded(ents[k], POS_MAX as int) && (is_player(ents[k]) ==> {
            &&& s.limit.left + 2 * ents[k].radius <= s.limit.right
            &&& s.limit.bottom + 2 * ents[k].radius <= s.limit.top
        }) by {
            if k < olds.len() {
                assert(entity_wf(olds[k]));
                assert(entity_bounded(olds[k], POS_MAX as int));
            } else {
                assert(ents[k] == shots[k - olds.len()]);
            }
        }
        let spawned = ents.skip(olds.len() as int);
        assert(ents =~= olds + spawned);
        assert forall|k: int| 0 <= k < spawned.len() implies !player_pred()(
            #[trigger] spawned[k],
        ) by {
            assert(spawned[k] == shots[k]);
        }
        crate::support::lemma_count_zero(spawned, player_pred());
        crate::support::lemma_count_add(olds, spawned, player_pred());
        if s.status.is_spawn {
            crate::support::lemma_count_nonneg(ents, player_pred());
        }
    }
}

/// Build a player projectile in executable code.
fn make_player_shot(x: i64, y: i64, vx: i64, vy: i64, id: u64) -> (e: Entity)
    ensures
        e == player_shot_entity(x, y, vx, vy, id),
{
    Entity {
        id,
        x,
        y,
        z: 0,
        radius: SHOOT_RADIUS,
        velocity: Some(Velocity { x: vx, y: vy }),
        player: None,
        enemy: None,
        player_shoot: Some(FromPlayerShoot),
        enemy_shoot: None,
        auto_despawn: Some(AutoDespawn),
        start_position: None,
        bang_point: None,
        bang: None,
        pattern: MotionPattern::Plain,
    }
}

} // verus!
