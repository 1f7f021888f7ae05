//! The per-tick combat systems: players attack enemies of their lane,
//! enemies pick and attack players or the obelisk, dead enemies are removed.
use vstd::prelude::*;
use crate::combat::{CombatResult, attack_rollable, possible_outcome, resolve_combat};
use crate::components::{AttackTarget, BaseAttack, Defence, EnemyBundle, PlayerBundle, PlayerScore};
use crate::stats::Health;
use crate::constants::{OBELISK_DAMAGE_MODIFIER, PLAYER_Y};
use crate::pipeline::{find_player, first_with_id};
use crate::random::RNG;
use crate::stats::{clamp_to_i64, saturate};
use crate::vitals::abs;

verus! {

/// A living enemy of `lane` within `range` of the height `y`.
pub open spec fn reachable(e: EnemyBundle, lane: int, y: int, range: int) -> bool {
    &&& e.enemy.lane == lane
    &&& e.health.current_health > 0
    &&& abs(y - e.position.y) <= range
}

/// `j` is the first enemy of `enemies` reachable so.
pub open spec fn first_reachable(enemies: Seq<EnemyBundle>, lane: int, y: int, range: int, j: int) -> bool {
    &&& 0 <= j < enemies.len()
    &&& reachable(enemies[j], lane, y, range)
    &&& forall|k: int| 0 <= k < j ==> !reachable(#[trigger] enemies[k], lane, y, range)
}

fn find_target(enemies: &Vec<EnemyBundle>, lane: usize, y: i64, range: i64) -> (r: Option<usize>)
    ensures
        match r {
            Some(j) => first_reachable(enemies@, lane as int, y as int, range as int, j as int),
            None => forall|k: int|
                0 <= k < enemies@.len() ==> !reachable(#[trigger] enemies@[k], lane as int, y as int, range as int),
        },
{
    let mut k: usize = 0;
    while k < enemies.len()
        invariant
            k <= enemies.len(),
            forall|m: int| 0 <= m < k ==> !reachable(#[trigger] enemies@[m], lane as int, y as int, range as int),
        decreases enemies.len() - k,
    {
        let e = &enemies[k];
        let dy = y as i128 - e.position.y as i128;
        let dist = if dy < 0 {
            -dy
        } else {
            dy
        };
        if e.enemy.lane == lane && e.health.current_health > 0 && dist <= range as i128 {
            return Some(k);
        }
        k += 1;
    }
    None
}

/// A player ready to strike at `now`: not down, not moving, pause over.
pub open spec fn ready_to_strike(p: PlayerBundle, now: int) -> bool {
    p.incapacitated.is_none() && !p.player.is_moving && p.attack.next_attack <= now
}

/// Whether the player has a target among `enemies`.
pub open spec fn has_target(p: PlayerBundle, enemies: Seq<EnemyBundle>) -> bool {
    exists|j: int|
        first_reachable(enemies, p.player.current_lane as int, PLAYER_Y as int, p.attack.attack_range as int, j)
}

/// An enemy that may have been hit: only its target health moved, and not up.
pub open spec fn only_hurt(o: EnemyBundle, n: EnemyBundle) -> bool {
    &&& n.health.target_health <= o.health.target_health
    &&& n.health.current_health == o.health.current_health
    &&& n.health.max_health == o.health.max_health
    &&& n.health.regeneration == o.health.regeneration
    &&& n.enemy == o.enemy
    &&& n.position == o.position
    &&& n.attack == o.attack
    &&& n.defence == o.defence
    &&& n.attack_target == o.attack_target
}

/// Player `i` strikes enemy `j` this tick: ready, and `j` is the first living
/// enemy of their lane in range.
pub open spec fn strikes(
    players: Seq<PlayerBundle>,
    enemies: Seq<EnemyBundle>,
    now: int,
    i: int,
    j: int,
) -> bool {
    &&& ready_to_strike(players[i], now)
    &&& first_reachable(
        enemies,
        players[i].player.current_lane as int,
        PLAYER_Y as int,
        players[i].attack.attack_range as int,
        j,
    )
}

/// Some roll of `attack` on `defence` deals `d` points.
pub open spec fn damage_possible(attack: &BaseAttack, defence: &Defence, d: int) -> bool {
    exists|r: CombatResult| possible_outcome(attack, defence, r) && r.damage == d
}

/// The points enemy `j` takes from the first `n` players, player `i` dealing
/// `ds[i]` when they strike it.
pub open spec fn strike_total(
    players: Seq<PlayerBundle>,
    enemies: Seq<EnemyBundle>,
    now: int,
    ds: Seq<int>,
    j: int,
    n: int,
) -> int
    decreases n,
{
    if n <= 0 {
        0
    } else {
        strike_total(players, enemies, now, ds, j, n - 1) + if strikes(
            players,
            enemies,
            now,
            n - 1,
            j,
        ) {
            ds[n - 1]
        } else {
            0
        }
    }
}

/// The ids of the players among the first `n` who strike, in order.
pub open spec fn striker_ids(
    players: Seq<PlayerBundle>,
    enemies: Seq<EnemyBundle>,
    now: int,
    n: int,
) -> Seq<u8>
    decreases n,
{
    if n <= 0 {
        seq![]
    } else {
        let rest = striker_ids(players, enemies, now, n - 1);
        if ready_to_strike(players[n - 1], now) && has_target(players[n - 1], enemies) {
            rest.push(players[n - 1].player.player_id)
        } else {
            rest
        }
    }
}

/// `after` is `enemies` once the players struck, player `i` dealing `ds[i]`
/// points (a damage some roll could give) to the enemy they strike, and each
/// enemy losing a unit of target health per point of all it took.
pub open spec fn strikes_dealt(
    players: Seq<PlayerBundle>,
    enemies: Seq<EnemyBundle>,
    now: int,
    ds: Seq<int>,
    after: Seq<EnemyBundle>,
) -> bool {
    &&& ds.len() == players.len()
    &&& forall|i: int, j: int|
        0 <= i < players.len() && #[trigger] strikes(players, enemies, now, i, j) ==> 0 <= ds[i]
            && damage_possible(&players[i].attack, &enemies[j].defence, ds[i])
    &&& forall|j: int|
        0 <= j < enemies.len() ==> (#[trigger] after[j]).health.target_health == saturate(
            enemies[j].health.target_health - 1000 * strike_total(
                players,
                enemies,
                now,
                ds,
                j,
                players.len() as int,
            ),
        )
}

proof fn lemma_total_prefix(
    players: Seq<PlayerBundle>,
    enemies: Seq<EnemyBundle>,
    now: int,
    ds1: Seq<int>,
    ds2: Seq<int>,
    j: int,
    n: int,
)
    requires
        forall|i: int| 0 <= i < n ==> ds1[i] == ds2[i],
    ensures
        strike_total(players, enemies, now, ds1, j, n) == strike_total(players, enemies, now, ds2, j, n),
    decreases n,
{
    if n > 0 {
        lemma_total_prefix(players, enemies, now, ds1, ds2, j, n - 1);
    }
}

proof fn lemma_first_reachable_unique(
    enemies: Seq<EnemyBundle>,
    lane: int,
    y: int,
    range: int,
    j1: int,
    j2: int,
)
    requires
        first_reachable(enemies, lane, y, range, j1),
        first_reachable(enemies, lane, y, range, j2),
    ensures
        j1 == j2,
{
    if j1 < j2 {
        assert(!reachable(enemies[j1], lane, y, range));
    } else if j2 < j1 {
        assert(!reachable(enemies[j2], lane, y, range));
    }
}

proof fn lemma_saturate_sub(x: int, y: int)
    requires
        x <= i64::MAX,
        y >= 0,
    ensures
        saturate(saturate(x) - y) == saturate(x - y),
{
}

/// Every player ready to strike attacks the first living enemy of their lane
/// in range (the same every player would find at the start of the tick):
/// the rolled damage (a unit of health per point) comes off its target
/// health, and the player's next attack waits the attack pause. An enemy
/// struck by several players loses the sum of their damages. Returns the ids
/// of the players who struck, in order.
pub fn player_auto_attack_system(
    now: i64,
    players: &mut Vec<PlayerBundle>,
    enemies: &mut Vec<EnemyBundle>,
) -> (r: Vec<u8>)
    requires
        forall|i: int| 0 <= i < old(players)@.len() ==> attack_rollable(&(#[trigger] old(players)@[i]).attack),
    ensures
        r@ == striker_ids(old(players)@, old(enemies)@, now as int, old(players)@.len() as int),
        final(players)@.len() == old(players)@.len(),
        final(enemies)@.len() == old(enemies)@.len(),
        forall|i: int|
            0 <= i < old(players)@.len() ==> {
                let (o, n) = (#[trigger] old(players)@[i], final(players)@[i]);
                if ready_to_strike(o, now as int) && has_target(o, old(enemies)@) {
                    &&& n.attack.next_attack == saturate(now + o.attack.attack_speed.value)
                    &&& n.attack.attack_speed == o.attack.attack_speed
                    &&& n.attack.min_attack_damage == o.attack.min_attack_damage
                    &&& n.attack.max_attack_damage == o.attack.max_attack_damage
                    &&& n.attack.attack_range == o.attack.attack_range
                    &&& n.attack.crit_chance == o.attack.crit_chance
                    &&& n.player == o.player
                    &&& n.health == o.health
                    &&& n.position == o.position
                    &&& n.incapacitated == o.incapacitated
                } else {
                    n == o
                }
            },
        forall|j: int|
            0 <= j < old(enemies)@.len() ==> only_hurt(#[trigger] old(enemies)@[j], final(enemies)@[j]),
        exists|ds: Seq<int>|
            #[trigger] strikes_dealt(old(players)@, old(enemies)@, now as int, ds, final(enemies)@),
{
    let ghost ps = old(players)@;
    let ghost es = old(enemies)@;
    let ghost mut ds: Seq<int> = seq![];
    let mut struck: Vec<u8> = Vec::new();
    let n = players.len();
    let mut i: usize = 0;
    while i < n
        invariant
            n == old(players)@.len(),
            ps == old(players)@,
            es == old(enemies)@,
            players@.len() == n,
            enemies@.len() == es.len(),
            i <= n,
            ds.len() == i,
            struck@ == striker_ids(ps, es, now as int, i as int),
            forall|m: int| 0 <= m < n ==> attack_rollable(&(#[trigger] ps[m]).attack),
            forall|m: int|
                0 <= m < i ==> {
                    let (o, p) = (#[trigger] ps[m], players@[m]);
                    if ready_to_strike(o, now as int) && has_target(o, es) {
                        &&& p.attack.next_attack == saturate(now + o.attack.attack_speed.value)
                        &&& p.attack.attack_speed == o.attack.attack_speed
                        &&& p.attack.min_attack_damage == o.attack.min_attack_damage
                        &&& p.attack.max_attack_damage == o.attack.max_attack_damage
                        &&& p.attack.attack_range == o.attack.attack_range
                        &&& p.attack.crit_chance == o.attack.crit_chance
                        &&& p.player == o.player
                        &&& p.health == o.health
                        &&& p.position == o.position
                        &&& p.incapacitated == o.incapacitated
                    } else {
                        p == o
                    }
                },
            forall|m: int| i <= m < n ==> #[trigger] players@[m] == ps[m],
            forall|j: int| 0 <= j < enemies@.len() ==> only_hurt(#[trigger] es[j], enemies@[j]),
            forall|m: int, j: int|
                0 <= m < i && #[trigger] strikes(ps, es, now as int, m, j) ==> 0 <= ds[m]
                    && damage_possible(&ps[m].attack, &es[j].defence, ds[m]),
            forall|j: int|
                0 <= j < es.len() ==> 0 <= #[trigger] strike_total(ps, es, now as int, ds, j, i as int),
            forall|j: int|
                0 <= j < es.len() ==> (#[trigger] enemies@[j]).health.target_health == saturate(
                    es[j].health.target_health - 1000 * strike_total(ps, es, now as int, ds, j, i as int),
                ),
        decreases n - i,
    {
        let ghost before = enemies@;
        let ready = players[i].incapacitated.is_none() && !players[i].player.is_moving
            && players[i].attack.next_attack <= now;
        let ghost mut d: int = 0;
        let ghost mut hit: int = -1;
        if ready {
            let target = find_target(
                enemies,
                players[i].player.current_lane,
                PLAYER_Y,
                players[i].attack.attack_range,
            );
            proof {
                // targets depend only on what attacks leave alone
                assert forall|k: int| 0 <= k < enemies@.len() implies reachable(
                    #[trigger] enemies@[k],
                    ps[i as int].player.current_lane as int,
                    PLAYER_Y as int,
                    ps[i as int].attack.attack_range as int,
                ) == reachable(
                    es[k],
                    ps[i as int].player.current_lane as int,
                    PLAYER_Y as int,
                    ps[i as int].attack.attack_range as int,
                ) by {
                    assert(only_hurt(es[k], enemies@[k]));
                }
            }
            match target {
                None => {
                    proof {
                        assert(!has_target(ps[i as int], es)) by {
                            if has_target(ps[i as int], es) {
                                let j = choose|j: int|
                                    first_reachable(
                                        es,
                                        ps[i as int].player.current_lane as int,
                                        PLAYER_Y as int,
                                        ps[i as int].attack.attack_range as int,
                                        j,
                                    );
                                assert(!reachable(
                                    enemies@[j],
                                    ps[i as int].player.current_lane as int,
                                    PLAYER_Y as int,
                                    ps[i as int].attack.attack_range as int,
                                ));
                            }
                        }
                    }
                },
                Some(j) => {
                    let result = resolve_combat(&players[i].attack, &enemies[j].defence);
                    let t = enemies[j].health.target_health as i128 - result.damage as i128 * 1000;
                    enemies[j].health.target_health = clamp_to_i64(t);
                    let next = now as i128 + players[i].attack.attack_speed.value as i128;
                    players[i].attack.next_attack = clamp_to_i64(next);
                    struck.push(players[i].player.player_id);
                    proof {
                        assert(first_reachable(
                            es,
                            ps[i as int].player.current_lane as int,
                            PLAYER_Y as int,
                            ps[i as int].attack.attack_range as int,
                            j as int,
                        ));
                        assert(only_hurt(es[j as int], before[j as int]));
                        assert(damage_possible(&ps[i as int].attack, &es[j as int].defence, result.damage as int));
                        d = result.damage as int;
                        hit = j as int;
                    }
                },
            }
        }
        proof {
            let ds2 = ds.push(d);
            assert(ps.take(i + 1).len() == i + 1);
            assert forall|j: int| 0 <= j < es.len() implies strike_total(ps, es, now as int, ds2, j, i as int)
                == strike_total(ps, es, now as int, ds, j, i as int) by {
                lemma_total_prefix(ps, es, now as int, ds2, ds, j, i as int);
            }
            assert forall|j: int| #[trigger] strikes(ps, es, now as int, i as int, j) implies j == hit by {
                if hit >= 0 {
                    lemma_first_reachable_unique(
                        es,
                        ps[i as int].player.current_lane as int,
                        PLAYER_Y as int,
                        ps[i as int].attack.attack_range as int,
                        j,
                        hit,
                    );
                } else {
                    if ready {
                        assert(has_target(ps[i as int], es));
                    }
                }
            }
            assert forall|j: int| 0 <= j < es.len() implies (#[trigger] enemies@[j]).health.target_health
                == saturate(
                es[j].health.target_health - 1000 * strike_total(ps, es, now as int, ds2, j, i + 1),
            ) && 0 <= strike_total(ps, es, now as int, ds2, j, i + 1) by {
                if j == hit {
                    lemma_saturate_sub(
                        es[j].health.target_health - 1000 * strike_total(ps, es, now as int, ds, j, i as int),
                        1000 * d,
                    );
                } else {
                    assert(enemies@[j] == before[j]);
                }
            }
            assert forall|m: int, j: int|
                0 <= m < i + 1 && #[trigger] strikes(ps, es, now as int, m, j) implies 0 <= ds2[m]
                    && damage_possible(&ps[m].attack, &es[j].defence, ds2[m]) by {
                if m == i {
                    assert(j == hit);
                } else {
                    assert(ds2[m] == ds[m]);
                }
            }
            if ready && hit >= 0 {
                assert(has_target(ps[i as int], es));
            }
            ds = ds2;
        }
        i += 1;
    }
    proof {
        assert(strikes_dealt(ps, es, now as int, ds, enemies@));
    }
    struck
}

/// An enemy without a target picks one: a random player of its lane, or the
/// obelisk when the lane has none.
pub fn enemy_target_selection_system(enemies: &mut Vec<EnemyBundle>, players: &Vec<PlayerBundle>)
    ensures
        final(enemies)@.len() == old(enemies)@.len(),
        forall|j: int|
            0 <= j < old(enemies)@.len() ==> {
                let (o, n) = (#[trigger] old(enemies)@[j], final(enemies)@[j]);
                &&& n.enemy == o.enemy
                &&& n.health == o.health
                &&& n.attack == o.attack
                &&& n.defence == o.defence
                &&& n.position == o.position
                &&& if o.attack_target.entity.is_some() {
                    n.attack_target == o.attack_target
                } else if exists|k: int|
                    0 <= k < players@.len() && (#[trigger] players@[k]).player.current_lane
                        == o.enemy.lane {
                    &&& !n.attack_target.is_obelisk
                    &&& exists|k: int|
                        0 <= k < players@.len() && (#[trigger] players@[k]).player.current_lane
                            == o.enemy.lane && n.attack_target.entity == Some(
                            players@[k].player.player_id,
                        )
                } else {
                    &&& n.attack_target.is_obelisk
                    &&& n.attack_target.entity.is_none()
                }
            },
{
    let n = enemies.len();
    let mut i: usize = 0;
    while i < n
        invariant
            n == old(enemies)@.len(),
            enemies@.len() == n,
            i <= n,
            forall|j: int|
                0 <= j < i ==> {
                    let (o, m) = (#[trigger] old(enemies)@[j], enemies@[j]);
                    &&& m.enemy == o.enemy
                    &&& m.health == o.health
                    &&& m.attack == o.attack
                    &&& m.defence == o.defence
                    &&& m.position == o.position
                    &&& if o.attack_target.entity.is_some() {
                        m.attack_target == o.attack_target
                    } else if exists|k: int|
                        0 <= k < players@.len() && (#[trigger] players@[k]).player.current_lane
                            == o.enemy.lane {
                        &&& !m.attack_target.is_obelisk
                        &&& exists|k: int|
                            0 <= k < players@.len() && (#[trigger] players@[k]).player.current_lane
                                == o.enemy.lane && m.attack_target.entity == Some(
                                players@[k].player.player_id,
                            )
                    } else {
                        &&& m.attack_target.is_obelisk
                        &&& m.attack_target.entity.is_none()
                    }
                },
            forall|j: int| i <= j < n ==> #[trigger] enemies@[j] == old(enemies)@[j],
        decreases n - i,
    {
        if enemies[i].attack_target.entity.is_none() {
            let lane = enemies[i].enemy.lane;
            let mut in_lane: Vec<usize> = Vec::new();
            let mut k: usize = 0;
            while k < players.len()
                invariant
                    k <= players.len(),
                    forall|m: int|
                        0 <= m < in_lane@.len() ==> (#[trigger] in_lane@[m]) < players@.len()
                            && players@[in_lane@[m] as int].player.current_lane == lane,
                    in_lane@.len() == 0 ==> forall|q: int|
                        0 <= q < k ==> (#[trigger] players@[q]).player.current_lane != lane,
                decreases players.len() - k,
            {
                if players[k].player.current_lane == lane {
                    in_lane.push(k);
                }
                k += 1;
            }
            if in_lane.len() == 0 {
                enemies[i].attack_target.is_obelisk = true;
            } else {
                let pick = RNG::usize_between(0, in_lane.len());
                let chosen = in_lane[pick];
                enemies[i].attack_target.is_obelisk = false;
                enemies[i].attack_target.entity = Some(players[chosen].player.player_id);
                proof {
                    assert(players@[chosen as int].player.current_lane == lane);
                }
            }
        }
        i += 1;
    }
}

/// With the warning gate below, the announcement plays when the game time of
/// the last obelisk warning exceeds the current time by more than this.
pub const OBELISK_WARNING_GAP: i64 = 10_000;

/// An enemy whose attack pause is over at `now`.
pub open spec fn enemy_ready(e: EnemyBundle, now: int) -> bool {
    e.attack.next_attack <= now
}

/// The player an enemy targets is still there, and still in its lane.
pub open spec fn target_still_valid(e: EnemyBundle, players: Seq<PlayerBundle>) -> bool {
    match e.attack_target.entity {
        Some(id) => exists|k: int|
            first_with_id(players, id, k) && players[k].player.current_lane == e.enemy.lane,
        None => false,
    }
}

/// A defence with no armour of any kind.
pub open spec fn no_armour(d: Defence) -> bool {
    &&& d.base_armour.value == 0
    &&& d.fire_armour == 0
    &&& d.electricity_armour == 0
    &&& d.poison_armour == 0
    &&& d.frost_armour == 0
}

/// An enemy that attacks the obelisk this tick, the obelisk's health being
/// `obelisk` when its turn comes.
pub open spec fn obelisk_hit(e: EnemyBundle, now: int, obelisk: int) -> bool {
    &&& enemy_ready(e, now)
    &&& e.attack_target.entity.is_none()
    &&& e.attack_target.is_obelisk
    &&& obelisk != 0
}

/// `p` with `points` of damage off its target health, a unit per point.
pub open spec fn player_hit(p: PlayerBundle, points: int) -> PlayerBundle {
    PlayerBundle {
        health: Health {
            target_health: saturate(p.health.target_health - 1000 * points) as i64,
            ..p.health
        },
        ..p
    }
}

/// One enemy's turn: `o` becomes `n`, the obelisk's health goes from `ob` to
/// `ob2` and the players from `ps` to `ps2`, `d` being the points it rolled.
/// An enemy not ready does nothing. One set on the obelisk, while the obelisk
/// stands, takes the rolled damage divided by the obelisk modifier from it
/// (never below zero) without restarting its pause. One whose target is gone
/// or left its lane drops it. One whose target is within range hits it and
/// restarts its pause; out of range, it waits.
pub open spec fn enemy_turn(
    o: EnemyBundle,
    n: EnemyBundle,
    now: int,
    ob: int,
    ps: Seq<PlayerBundle>,
    d: int,
    ob2: int,
    ps2: Seq<PlayerBundle>,
) -> bool {
    if !enemy_ready(o, now) {
        n == o && ob2 == ob && ps2 == ps
    } else {
        match o.attack_target.entity {
            None => {
                &&& n == o
                &&& ps2 == ps
                &&& if obelisk_hit(o, now, ob) {
                    &&& 0 <= d
                    &&& exists|def: Defence| no_armour(def) && #[trigger] damage_possible(&o.attack, &def, d)
                    &&& ob2 == ob - if d / OBELISK_DAMAGE_MODIFIER as int > ob {
                        ob
                    } else {
                        d / OBELISK_DAMAGE_MODIFIER as int
                    }
                } else {
                    ob2 == ob
                }
            },
            Some(id) => {
                &&& ob2 == ob
                &&& if target_still_valid(o, ps) {
                    exists|k: int|
                        {
                            &&& first_with_id(ps, id, k)
                            &&& ps[k].player.current_lane == o.enemy.lane
                            &&& if abs(o.position.y - ps[k].position.y) <= o.attack.attack_range {
                                &&& 0 <= d
                                &&& damage_possible(&o.attack, &ps[k].defence, d)
                                &&& ps2 == ps.update(k, player_hit(ps[k], d))
                                &&& n == EnemyBundle {
                                    attack: BaseAttack {
                                        next_attack: saturate(now + o.attack.attack_speed.value) as i64,
                                        ..o.attack
                                    },
                                    ..o
                                }
                            } else {
                                ps2 == ps && n == o
                            }
                        }
                } else {
                    &&& ps2 == ps
                    &&& n == EnemyBundle {
                        attack_target: AttackTarget { entity: None, ..o.attack_target },
                        ..o
                    }
                }
            },
        }
    }
}

/// The enemies' turns in order: `obs` and `pss` are the obelisk's health and
/// the players before each turn and after the last, `ds` the points rolled.
/// A warning is due when the obelisk was attacked and the time of the last
/// warning lies more than `OBELISK_WARNING_GAP` after `now`.
pub open spec fn enemy_turns(
    before: Seq<EnemyBundle>,
    after: Seq<EnemyBundle>,
    now: int,
    last_warning: int,
    warn: bool,
    obs: Seq<int>,
    pss: Seq<Seq<PlayerBundle>>,
    ds: Seq<int>,
) -> bool {
    &&& after.len() == before.len()
    &&& obs.len() == before.len() + 1
    &&& pss.len() == before.len() + 1
    &&& ds.len() == before.len()
    &&& forall|i: int|
        0 <= i < before.len() ==> enemy_turn(
            #[trigger] before[i],
            after[i],
            now,
            obs[i],
            pss[i],
            ds[i],
            obs[i + 1],
            pss[i + 1],
        )
    &&& warn == (last_warning - now > OBELISK_WARNING_GAP && exists|i: int|
        0 <= i < before.len() && #[trigger] obelisk_hit(before[i], now, obs[i]))
}

/// Each enemy in turn, as `enemy_turn` says: attacks the obelisk, drops a
/// target that is gone or left its lane, hits its target player in range, or
/// waits. Returns whether an obelisk warning is due.
pub fn enemy_auto_attack_system(
    now: i64,
    score: &mut PlayerScore,
    enemies: &mut Vec<EnemyBundle>,
    players: &mut Vec<PlayerBundle>,
) -> (warn: bool)
    requires
        forall|j: int| 0 <= j < old(enemies)@.len() ==> attack_rollable(&(#[trigger] old(enemies)@[j]).attack),
    ensures
        final(score).xp == old(score).xp,
        final(score).last_obelisk_damage == old(score).last_obelisk_damage,
        final(enemies)@.len() == old(enemies)@.len(),
        final(players)@.len() == old(players)@.len(),
        exists|obs: Seq<int>, pss: Seq<Seq<PlayerBundle>>, ds: Seq<int>|
            {
                &&& #[trigger] enemy_turns(
                    old(enemies)@,
                    final(enemies)@,
                    now as int,
                    old(score).last_obelisk_damage as int,
                    warn,
                    obs,
                    pss,
                    ds,
                )
                &&& obs[0] == old(score).obelisk_health
                &&& obs.last() == final(score).obelisk_health
                &&& pss[0] == old(players)@
                &&& pss.last() == final(players)@
            },
{
    let ghost es = old(enemies)@;
    let ghost mut obs: Seq<int> = seq![score.obelisk_health as int];
    let ghost mut pss: Seq<Seq<PlayerBundle>> = seq![players@];
    let ghost mut ds: Seq<int> = seq![];
    let last = score.last_obelisk_damage;
    let mut warn = false;
    let n = enemies.len();
    let mut i: usize = 0;
    while i < n
        invariant
            n == es.len(),
            es == old(enemies)@,
            enemies@.len() == n,
            players@.len() == old(players)@.len(),
            i <= n,
            last == old(score).last_obelisk_damage,
            score.xp == old(score).xp,
            score.last_obelisk_damage == old(score).last_obelisk_damage,
            forall|j: int| 0 <= j < n ==> attack_rollable(&(#[trigger] es[j]).attack),
            forall|j: int| i <= j < n ==> #[trigger] enemies@[j] == es[j],
            obs.len() == i + 1,
            pss.len() == i + 1,
            ds.len() == i,
            obs[0] == old(score).obelisk_health,
            pss[0] == old(players)@,
            obs[i as int] == score.obelisk_health,
            pss[i as int] == players@,
            forall|m: int|
                0 <= m < i ==> enemy_turn(
                    #[trigger] es[m],
                    enemies@[m],
                    now as int,
                    obs[m],
                    pss[m],
                    ds[m],
                    obs[m + 1],
                    pss[m + 1],
                ),
            warn == (last - now > OBELISK_WARNING_GAP && exists|m: int|
                0 <= m < i && #[trigger] obelisk_hit(es[m], now as int, obs[m])),
        decreases n - i,
    {
        let ghost ob = score.obelisk_health as int;
        let ghost ps = players@;
        let ghost mut d: int = 0;
        if enemies[i].attack.next_attack <= now {
            match enemies[i].attack_target.entity {
                None => {
                    if enemies[i].attack_target.is_obelisk && score.obelisk_health != 0 {
                        let dummy = Defence::default();
                        let result = resolve_combat(&enemies[i].attack, &dummy);
                        let taken = result.damage as u64 / OBELISK_DAMAGE_MODIFIER as u64;
                        if last as i128 - now as i128 > OBELISK_WARNING_GAP as i128 {
                            warn = true;
                        }
                        if taken > score.obelisk_health as u64 {
                            score.obelisk_health = 0;
                        } else {
                            score.obelisk_health = score.obelisk_health - taken as usize;
                        }
                        proof {
                            d = result.damage as int;
                            assert(no_armour(dummy));
                            assert(damage_possible(&es[i as int].attack, &dummy, d));
                        }
                    }
                },
                Some(id) => {
                    let found = find_player(players, id);
                    proof {
                        assert forall|q1: int, q2: int|
                            first_with_id(ps, id, q1) && first_with_id(ps, id, q2) implies q1 == q2 by {
                            if q1 < q2 {
                                assert(ps[q1].player.player_id == id);
                            } else if q2 < q1 {
                                assert(ps[q2].player.player_id == id);
                            }
                        }
                    }
                    match found {
                        None => {
                            enemies[i].attack_target.entity = None;
                        },
                        Some(k) => {
                            if players[k].player.current_lane != enemies[i].enemy.lane {
                                enemies[i].attack_target.entity = None;
                            } else {
                                let dy = enemies[i].position.y as i128 - players[k].position.y as i128;
                                let dist = if dy < 0 {
                                    -dy
                                } else {
                                    dy
                                };
                                if dist <= enemies[i].attack.attack_range as i128 {
                                    let result = resolve_combat(&enemies[i].attack, &players[k].defence);
                                    let t = players[k].health.target_health as i128 - result.damage as i128
                                        * 1000;
                                    players[k].health.target_health = clamp_to_i64(t);
                                    let next = now as i128 + enemies[i].attack.attack_speed.value as i128;
                                    enemies[i].attack.next_attack = clamp_to_i64(next);
                                    proof {
                                        d = result.damage as int;
                                        assert(damage_possible(&es[i as int].attack, &ps[k as int].defence, d));
                                        assert(players@ =~= ps.update(k as int, player_hit(ps[k as int], d)));
                                    }
                                }
                                proof {
                                    assert(target_still_valid(es[i as int], ps));
                                }
                            }
                        },
                    }
                },
            }
        }
        proof {
            assert(enemy_turn(
                es[i as int],
                enemies@[i as int],
                now as int,
                ob,
                ps,
                d,
                score.obelisk_health as int,
                players@,
            ));
            let obs2 = obs.push(score.obelisk_health as int);
            let pss2 = pss.push(players@);
            let ds2 = ds.push(d);
            assert forall|m: int|
                0 <= m < i + 1 implies enemy_turn(
                    #[trigger] es[m],
                    enemies@[m],
                    now as int,
                    obs2[m],
                    pss2[m],
                    ds2[m],
                    obs2[m + 1],
                    pss2[m + 1],
                ) by {
                if m < i {
                    assert(obs2[m] == obs[m] && obs2[m + 1] == obs[m + 1]);
                    assert(pss2[m] == pss[m] && pss2[m + 1] == pss[m + 1]);
                }
            }
            if obelisk_hit(es[i as int], now as int, ob) {
                assert(obs2[i as int] == ob);
            }
            assert(warn == (last - now > OBELISK_WARNING_GAP && exists|m: int|
                0 <= m < i + 1 && #[trigger] obelisk_hit(es[m], now as int, obs2[m]))) by {
                if exists|m: int| 0 <= m < i + 1 && #[trigger] obelisk_hit(es[m], now as int, obs2[m]) {
                    let m = choose|m: int| 0 <= m < i + 1 && #[trigger] obelisk_hit(es[m], now as int, obs2[m]);
                    if m < i {
                        assert(obs2[m] == obs[m]);
                    }
                }
                if exists|m: int| 0 <= m < i && #[trigger] obelisk_hit(es[m], now as int, obs[m]) {
                    let m = choose|m: int| 0 <= m < i && #[trigger] obelisk_hit(es[m], now as int, obs[m]);
                    assert(obs2[m] == obs[m]);
                }
            }
            obs = obs2;
            pss = pss2;
            ds = ds2;
        }
        i += 1;
    }
    proof {
        assert(enemy_turns(es, enemies@, now as int, last as int, warn, obs, pss, ds));
    }
    warn
}

/// The enemies still alive, in order.
pub open spec fn survivors(enemies: Seq<EnemyBundle>) -> Seq<EnemyBundle>
    decreases enemies.len(),
{
    if enemies.len() == 0 {
        enemies
    } else {
        let rest = survivors(enemies.drop_last());
        if enemies.last().health.current_health <= 0 {
            rest
        } else {
            rest.push(enemies.last())
        }
    }
}

/// The xp the dead among `enemies` are worth.
pub open spec fn bounty(enemies: Seq<EnemyBundle>) -> int
    decreases enemies.len(),
{
    if enemies.len() == 0 {
        0
    } else {
        bounty(enemies.drop_last()) + if enemies.last().health.current_health <= 0 {
            enemies.last().enemy.xp_reward as int
        } else {
            0
        }
    }
}

/// `v`, no more than `usize::MAX`.
pub open spec fn cap_usize(v: int) -> int {
    if v > usize::MAX {
        usize::MAX as int
    } else {
        v
    }
}

/// Removes every enemy whose displayed health is gone and credits the shared
/// score with their xp (which stops at the largest `usize`).
pub fn dead_enemy_removal_system(score: &mut PlayerScore, enemies: &mut Vec<EnemyBundle>)
    ensures
        final(enemies)@ == survivors(old(enemies)@),
        final(score).xp == cap_usize(old(score).xp + bounty(old(enemies)@)),
        final(score).obelisk_health == old(score).obelisk_health,
        final(score).last_obelisk_damage == old(score).last_obelisk_damage,
{
    let ghost all = enemies@;
    let n = enemies.len();
    let mut k: usize = 0;
    let mut i: usize = 0;
    while k < n
        invariant
            n == all.len(),
            k <= n,
            i <= k,
            i == survivors(all.take(k as int)).len(),
            enemies@ == survivors(all.take(k as int)) + all.subrange(k as int, n as int),
            score.xp == cap_usize(old(score).xp + bounty(all.take(k as int))),
            score.obelisk_health == old(score).obelisk_health,
            score.last_obelisk_damage == old(score).last_obelisk_damage,
            0 <= bounty(all.take(k as int)),
        decreases n - k,
    {
        proof {
            assert(all.take(k + 1).drop_last() == all.take(k as int));
            assert(all.take(k + 1).last() == all[k as int]);
            assert(enemies@[i as int] == all[k as int]);
        }
        if enemies[i].health.current_health <= 0 {
            let reward = enemies[i].enemy.xp_reward;
            score.xp = if reward > usize::MAX - score.xp {
                usize::MAX
            } else {
                score.xp + reward
            };
            let _gone = enemies.remove(i);
            proof {
                assert(enemies@ =~= survivors(all.take(k + 1)) + all.subrange(k + 1, n as int));
            }
        } else {
            proof {
                assert(enemies@ =~= survivors(all.take(k + 1)) + all.subrange(k + 1, n as int));
            }
            i += 1;
        }
        k += 1;
    }
    proof {
        assert(all.take(n as int) == all);
        assert(enemies@ =~= survivors(all));
    }
}

} // verus!
