//! Applying the effects of a cast ability to the actors of its lane.
use vstd::prelude::*;
use crate::abilities::{AbilityAttackDetail, AbilityDetail};
use crate::combat::{armour_rating, damage_curve, resolve_combat};
use crate::components::{BaseAttack, EnemyBundle, Incapacitated, PlayerBundle};
use crate::constants::{LANE_COUNT, MELEE_RANGE, Position, TARGET_Y, lane_x, target_location};
use crate::pipeline::SpawnedAbility;
use crate::stats::{clamp_to_i64, saturate};
use crate::vitals::abs;

verus! {

/// A request to the presentation layer to play an animation once.
#[derive(Clone, Copy, Debug, PartialEq, Eq)]
pub struct VisualEffect {
    pub atlas_id: u128,
    pub frame_start: usize,
    pub frame_end: usize,
    pub position: Position,
}

/// A living enemy of `lane` within `range` of the lane's target point.
pub open spec fn in_reach(e: EnemyBundle, lane: int, range: int) -> bool {
    &&& e.enemy.lane == lane
    &&& e.health.current_health > 0
    &&& abs(e.position.y - TARGET_Y) <= range
}

/// Attack details an ability can roll: damages not negative and in order.
pub open spec fn detail_rollable(d: AbilityAttackDetail) -> bool {
    0 <= d.min_damage <= d.max_damage
}

/// Every attack among `effects` can be rolled.
pub open spec fn effects_rollable(effects: Seq<AbilityDetail>) -> bool {
    forall|i: int|
        0 <= i < effects.len() ==> match #[trigger] effects[i] {
            AbilityDetail::Attack(d) => detail_rollable(d),
            AbilityDetail::AttackArea(d, _) => detail_rollable(d),
            _ => true,
        }
}

/// Whether every attack among `effects` can be rolled.
pub fn effects_are_rollable(effects: &Vec<AbilityDetail>) -> (r: bool)
    ensures
        r == effects_rollable(effects@),
{
    let mut i: usize = 0;
    while i < effects.len()
        invariant
            i <= effects.len(),
            forall|j: int|
                0 <= j < i ==> match #[trigger] effects@[j] {
                    AbilityDetail::Attack(d) => detail_rollable(d),
                    AbilityDetail::AttackArea(d, _) => detail_rollable(d),
                    _ => true,
                },
        decreases effects.len() - i,
    {
        let ok = match effects[i] {
            AbilityDetail::Attack(d) => 0 <= d.min_damage && d.min_damage <= d.max_damage,
            AbilityDetail::AttackArea(d, _) => 0 <= d.min_damage && d.min_damage <= d.max_damage,
            _ => true,
        };
        if !ok {
            assert(!effects_rollable(effects@)) by {
                assert(!match effects@[i as int] {
                    AbilityDetail::Attack(d) => detail_rollable(d),
                    AbilityDetail::AttackArea(d, _) => detail_rollable(d),
                    _ => true,
                });
            }
            return false;
        }
        i += 1;
    }
    true
}

/// `new_e` is `old_e` after a hit by an ability of detail `d`: some damage
/// roll in `[min_damage, max_damage]` against its base armour came off its
/// target health (a point of damage is a unit, a thousand thousandths);
/// nothing else changed.
pub open spec fn hit_by(old_e: EnemyBundle, new_e: EnemyBundle, d: AbilityAttackDetail) -> bool {
    &&& exists|roll: int|
        d.min_damage <= roll <= d.max_damage && new_e.health.target_health == saturate(
            old_e.health.target_health - damage_curve(
                roll,
                armour_rating(old_e.defence.base_armour.value as int),
            ) * 1000,
        )
    &&& new_e.health.current_health == old_e.health.current_health
    &&& new_e.health.max_health == old_e.health.max_health
    &&& new_e.health.regeneration == old_e.health.regeneration
    &&& new_e.enemy == old_e.enemy
    &&& new_e.position == old_e.position
    &&& new_e.attack == old_e.attack
    &&& new_e.defence == old_e.defence
    &&& new_e.attack_target == old_e.attack_target
}

/// One ability hit on enemy `i`, as `hit_by` says.
fn hit_enemy(d: &AbilityAttackDetail, enemies: &mut Vec<EnemyBundle>, i: usize)
    requires
        i < old(enemies)@.len(),
        detail_rollable(*d),
    ensures
        final(enemies)@.len() == old(enemies)@.len(),
        hit_by(old(enemies)@[i as int], final(enemies)@[i as int], *d),
        forall|j: int|
            0 <= j < old(enemies)@.len() && j != i ==> #[trigger] final(enemies)@[j] == old(
                enemies,
            )@[j],
{
    let attack = BaseAttack::with_damage(d.min_damage, d.max_damage);
    let result = resolve_combat(&attack, &enemies[i].defence);
    proof {
        let e = enemies@[i as int];
        let (is_crit, roll) = choose|is_crit: bool, roll: int|
            {
                &&& attack.min_attack_damage <= roll <= attack.max_attack_damage
                &&& (attack.crit_chance == 0 ==> !is_crit)
                &&& (attack.crit_chance == 1000 ==> is_crit)
                &&& result == crate::combat::combat_outcome(&attack, &e.defence, is_crit, roll)
            };
        let armour = armour_rating(e.defence.base_armour.value as int);
        assert(armour >= 0);
        if roll > 0 {
            crate::combat::lemma_curve_at_most_attack(roll, armour);
        }
        assert(result.damage == damage_curve(roll, armour_rating(e.defence.base_armour.value as int)));
    }
    let target = enemies[i].health.target_health as i128 - result.damage as i128 * 1000;
    enemies[i].health.target_health = clamp_to_i64(target);
}

/// The first enemy in `enemies` within `range` of `lane`'s target point.
pub open spec fn first_in_reach(enemies: Seq<EnemyBundle>, lane: int, range: int, i: int) -> bool {
    &&& 0 <= i < enemies.len()
    &&& in_reach(enemies[i], lane, range)
    &&& forall|j: int| 0 <= j < i ==> !in_reach(#[trigger] enemies[j], lane, range)
}

fn is_in_reach(e: &EnemyBundle, lane: usize, range: i64) -> (r: bool)
    ensures
        r == in_reach(*e, lane as int, range as int),
{
    let dy = e.position.y as i128 - TARGET_Y as i128;
    let dist = if dy < 0 {
        -dy
    } else {
        dy
    };
    e.enemy.lane == lane && e.health.current_health > 0 && dist <= range as i128
}

/// A single-target ability attack: the first living enemy of the lane in
/// melee range of its target point is hit; with none, nothing happens.
pub fn apply_attack(lane: usize, d: &AbilityAttackDetail, enemies: &mut Vec<EnemyBundle>)
    requires
        detail_rollable(*d),
    ensures
        attack_applied(old(enemies)@, final(enemies)@, lane as int, *d),
{
    let mut i: usize = 0;
    while i < enemies.len()
        invariant
            i <= enemies.len(),
            enemies@ == old(enemies)@,
            detail_rollable(*d),
            forall|j: int| 0 <= j < i ==> !in_reach(#[trigger] enemies@[j], lane as int, MELEE_RANGE as int),
        decreases enemies.len() - i,
    {
        if is_in_reach(&enemies[i], lane, MELEE_RANGE) {
            hit_enemy(d, enemies, i);
            assert(first_in_reach(old(enemies)@, lane as int, MELEE_RANGE as int, i as int));
            return;
        }
        i += 1;
    }
}

/// What a single-target attack did to the enemies.
pub open spec fn attack_applied(
    old_e: Seq<EnemyBundle>,
    new_e: Seq<EnemyBundle>,
    lane: int,
    d: AbilityAttackDetail,
) -> bool {
    if exists|i: int| first_in_reach(old_e, lane, MELEE_RANGE as int, i) {
        exists|i: int|
            {
                &&& first_in_reach(old_e, lane, MELEE_RANGE as int, i)
                &&& new_e.len() == old_e.len()
                &&& hit_by(old_e[i], new_e[i], d)
                &&& forall|j: int| 0 <= j < old_e.len() && j != i ==> #[trigger] new_e[j] == old_e[j]
            }
    } else {
        new_e == old_e
    }
}

/// What an area attack did to the enemies: each living enemy of the lane
/// within `radius` of its target point was hit, the others are as they were.
pub open spec fn area_applied(
    old_e: Seq<EnemyBundle>,
    new_e: Seq<EnemyBundle>,
    lane: int,
    d: AbilityAttackDetail,
    radius: int,
) -> bool {
    &&& new_e.len() == old_e.len()
    &&& forall|j: int|
        0 <= j < old_e.len() ==> if in_reach(#[trigger] old_e[j], lane, radius) {
            hit_by(old_e[j], new_e[j], d)
        } else {
            new_e[j] == old_e[j]
        }
}

/// An area ability attack: every living enemy of the lane within `radius` of
/// its target point is hit.
pub fn apply_attack_area(
    lane: usize,
    d: &AbilityAttackDetail,
    radius: u32,
    enemies: &mut Vec<EnemyBundle>,
)
    requires
        detail_rollable(*d),
    ensures
        area_applied(old(enemies)@, final(enemies)@, lane as int, *d, radius as int),
{
    let n = enemies.len();
    let mut i: usize = 0;
    while i < n
        invariant
            n == old(enemies)@.len(),
            enemies@.len() == n,
            i <= n,
            detail_rollable(*d),
            forall|j: int|
                0 <= j < i ==> if in_reach(#[trigger] old(enemies)@[j], lane as int, radius as int) {
                    hit_by(old(enemies)@[j], enemies@[j], *d)
                } else {
                    enemies@[j] == old(enemies)@[j]
                },
            forall|j: int| i <= j < n ==> #[trigger] enemies@[j] == old(enemies)@[j],
        decreases n - i,
    {
        if is_in_reach(&enemies[i], lane, radius as i64) {
            hit_enemy(d, enemies, i);
        }
        i += 1;
    }
}

/// What a heal did: every player of the lane who is not down had `amount`
/// added to their target health; the others are as they were.
pub open spec fn heal_applied(
    old_p: Seq<PlayerBundle>,
    new_p: Seq<PlayerBundle>,
    lane: int,
    amount: int,
) -> bool {
    &&& new_p.len() == old_p.len()
    &&& forall|j: int|
        0 <= j < old_p.len() ==> if (#[trigger] old_p[j]).player.current_lane == lane
            && old_p[j].incapacitated.is_none() {
            &&& new_p[j].health.target_health == saturate(old_p[j].health.target_health + amount)
            &&& new_p[j].health.current_health == old_p[j].health.current_health
            &&& new_p[j].health.max_health == old_p[j].health.max_health
            &&& new_p[j].health.regeneration == old_p[j].health.regeneration
            &&& new_p[j].player == old_p[j].player
            &&& new_p[j].mana == old_p[j].mana
            &&& new_p[j].movement == old_p[j].movement
            &&& new_p[j].attack == old_p[j].attack
            &&& new_p[j].defence == old_p[j].defence
            &&& new_p[j].actions == old_p[j].actions
            &&& new_p[j].position == old_p[j].position
            &&& new_p[j].incapacitated == old_p[j].incapacitated
        } else {
            new_p[j] == old_p[j]
        }
}

/// A burst heal for the players of `lane` who are not down.
pub fn apply_heal(lane: usize, amount: i64, players: &mut Vec<PlayerBundle>)
    ensures
        heal_applied(old(players)@, final(players)@, lane as int, amount as int),
{
    let n = players.len();
    let mut i: usize = 0;
    while i < n
        invariant
            n == old(players)@.len(),
            players@.len() == n,
            i <= n,
            forall|j: int|
                0 <= j < i ==> if (#[trigger] old(players)@[j]).player.current_lane == lane
                    && old(players)@[j].incapacitated.is_none() {
                    &&& players@[j].health.target_health == saturate(
                        old(players)@[j].health.target_health + amount,
                    )
                    &&& players@[j].health.current_health == old(players)@[j].health.current_health
                    &&& players@[j].health.max_health == old(players)@[j].health.max_health
                    &&& players@[j].health.regeneration == old(players)@[j].health.regeneration
                    &&& players@[j].player == old(players)@[j].player
                    &&& players@[j].mana == old(players)@[j].mana
                    &&& players@[j].movement == old(players)@[j].movement
                    &&& players@[j].attack == old(players)@[j].attack
                    &&& players@[j].defence == old(players)@[j].defence
                    &&& players@[j].actions == old(players)@[j].actions
                    &&& players@[j].position == old(players)@[j].position
                    &&& players@[j].incapacitated == old(players)@[j].incapacitated
                } else {
                    players@[j] == old(players)@[j]
                },
            forall|j: int| i <= j < n ==> #[trigger] players@[j] == old(players)@[j],
        decreases n - i,
    {
        if players[i].player.current_lane == lane && players[i].incapacitated.is_none() {
            let t = players[i].health.target_health as i128 + amount as i128;
            players[i].health.target_health = clamp_to_i64(t);
        }
        i += 1;
    }
}

/// What a revive did: every downed player of the lane is marked revived;
/// the others are as they were.
pub open spec fn revive_applied(old_p: Seq<PlayerBundle>, new_p: Seq<PlayerBundle>, lane: int) -> bool {
    &&& new_p.len() == old_p.len()
    &&& forall|j: int|
        0 <= j < old_p.len() ==> match (#[trigger] old_p[j]).incapacitated {
            Some(inc) => if old_p[j].player.current_lane == lane {
                &&& new_p[j].incapacitated == Some(
                    Incapacitated { end_time: inc.end_time, is_revived: true },
                )
                &&& new_p[j].health == old_p[j].health
                &&& new_p[j].player == old_p[j].player
                &&& new_p[j].mana == old_p[j].mana
                &&& new_p[j].movement == old_p[j].movement
                &&& new_p[j].attack == old_p[j].attack
                &&& new_p[j].defence == old_p[j].defence
                &&& new_p[j].actions == old_p[j].actions
                &&& new_p[j].position == old_p[j].position
            } else {
                new_p[j] == old_p[j]
            },
            None => new_p[j] == old_p[j],
        }
}

/// Marks every downed player of `lane` as revived.
pub fn apply_revive(lane: usize, players: &mut Vec<PlayerBundle>)
    ensures
        revive_applied(old(players)@, final(players)@, lane as int),
{
    let n = players.len();
    let mut i: usize = 0;
    while i < n
        invariant
            n == old(players)@.len(),
            players@.len() == n,
            i <= n,
            forall|j: int|
                0 <= j < i ==> match (#[trigger] old(players)@[j]).incapacitated {
                    Some(inc) => if old(players)@[j].player.current_lane == lane {
                        &&& players@[j].incapacitated == Some(
                            Incapacitated { end_time: inc.end_time, is_revived: true },
                        )
                        &&& players@[j].health == old(players)@[j].health
                        &&& players@[j].player == old(players)@[j].player
                        &&& players@[j].mana == old(players)@[j].mana
                        &&& players@[j].movement == old(players)@[j].movement
                        &&& players@[j].attack == old(players)@[j].attack
                        &&& players@[j].defence == old(players)@[j].defence
                        &&& players@[j].actions == old(players)@[j].actions
                        &&& players@[j].position == old(players)@[j].position
                    } else {
                        players@[j] == old(players)@[j]
                    },
                    None => players@[j] == old(players)@[j],
                },
            forall|j: int| i <= j < n ==> #[trigger] players@[j] == old(players)@[j],
        decreases n - i,
    {
        if players[i].player.current_lane == lane {
            match players[i].incapacitated {
                Some(inc) => {
                    players[i].incapacitated = Some(
                        Incapacitated { end_time: inc.end_time, is_revived: true },
                    );
                },
                None => {},
            }
        }
        i += 1;
    }
}

/// The actors after one effect of an ability cast in `lane`. A buff has no
/// rule for whom it targets and changes nothing here; an animation changes
/// no actor.
pub open spec fn effect_applied(
    players_before: Seq<PlayerBundle>,
    enemies_before: Seq<EnemyBundle>,
    effect: AbilityDetail,
    lane: int,
    players_after: Seq<PlayerBundle>,
    enemies_after: Seq<EnemyBundle>,
) -> bool {
    match effect {
        AbilityDetail::Attack(d) => players_after == players_before && attack_applied(enemies_before, enemies_after, lane, d),
        AbilityDetail::AttackArea(d, radius) => players_after == players_before && area_applied(
            enemies_before,
            enemies_after,
            lane,
            d,
            radius as int,
        ),
        AbilityDetail::Heal(h) => enemies_after == enemies_before && heal_applied(players_before, players_after, lane, h.burst_heal as int),
        AbilityDetail::Revive(_) => enemies_after == enemies_before && revive_applied(players_before, players_after, lane),
        _ => players_after == players_before && enemies_after == enemies_before,
    }
}

/// `ps` and `es` are the players and enemies before each of `effects` and
/// after the last: each step is one effect applied.
pub open spec fn effects_trace(
    effects: Seq<AbilityDetail>,
    lane: int,
    ps: Seq<Seq<PlayerBundle>>,
    es: Seq<Seq<EnemyBundle>>,
) -> bool {
    &&& ps.len() == effects.len() + 1
    &&& es.len() == effects.len() + 1
    &&& forall|k: int|
        0 <= k < effects.len() ==> effect_applied(
            ps[k],
            es[k],
            #[trigger] effects[k],
            lane,
            ps[k + 1],
            es[k + 1],
        )
}

/// The actors after each of `effects` in turn.
pub open spec fn effects_applied(
    players_before: Seq<PlayerBundle>,
    enemies_before: Seq<EnemyBundle>,
    effects: Seq<AbilityDetail>,
    lane: int,
    players_after: Seq<PlayerBundle>,
    enemies_after: Seq<EnemyBundle>,
) -> bool {
    exists|ps: Seq<Seq<PlayerBundle>>, es: Seq<Seq<EnemyBundle>>|
        #[trigger] effects_trace(effects, lane, ps, es) && ps[0] == players_before && es[0] == enemies_before && ps.last()
            == players_after && es.last() == enemies_after
}

/// The animations among `effects`, in order, each at `lane`'s target point.
pub open spec fn animations_of(effects: Seq<AbilityDetail>, lane: int) -> Seq<VisualEffect>
    decreases effects.len(),
{
    if effects.len() == 0 {
        seq![]
    } else {
        let rest = animations_of(effects.drop_last(), lane);
        match effects.last() {
            AbilityDetail::SpawnAnimation(atlas_id, frame_start, frame_end) => rest.push(
                VisualEffect {
                    atlas_id,
                    frame_start,
                    frame_end,
                    position: Position { x: lane_x(lane) as i64, y: TARGET_Y },
                },
            ),
            _ => rest,
        }
    }
}

/// Applies a cast ability once: each effect in order to the actors of its
/// lane, then marks it applied. Returns the animations it asks the
/// presentation layer to play. An ability already applied does nothing.
pub fn execute_abilities(
    ability: &mut SpawnedAbility,
    players: &mut Vec<PlayerBundle>,
    enemies: &mut Vec<EnemyBundle>,
) -> (r: Vec<VisualEffect>)
    requires
        old(ability).lane < LANE_COUNT,
        effects_rollable(old(ability).effects@),
    ensures
        final(ability).lane == old(ability).lane,
        final(ability).effects@ == old(ability).effects@,
        final(ability).applied,
        old(ability).applied ==> {
            &&& r@.len() == 0
            &&& final(players)@ == old(players)@
            &&& final(enemies)@ == old(enemies)@
        },
        !old(ability).applied ==> {
            &&& r@ == animations_of(old(ability).effects@, old(ability).lane as int)
            &&& effects_applied(
                old(players)@,
                old(enemies)@,
                old(ability).effects@,
                old(ability).lane as int,
                final(players)@,
                final(enemies)@,
            )
        },
{
    let mut visuals: Vec<VisualEffect> = Vec::new();
    if ability.applied {
        return visuals;
    }
    ability.applied = true;
    let lane = ability.lane;
    let n = ability.effects.len();
    let ghost players_before = players@;
    let ghost enemies_before = enemies@;
    let ghost mut ps: Seq<Seq<PlayerBundle>> = seq![players@];
    let ghost mut es: Seq<Seq<EnemyBundle>> = seq![enemies@];
    let mut i: usize = 0;
    while i < n
        invariant
            n == ability.effects@.len(),
            i <= n,
            lane == ability.lane,
            lane < LANE_COUNT,
            effects_rollable(ability.effects@),
            visuals@ == animations_of(ability.effects@.take(i as int), lane as int),
            effects_trace(ability.effects@.take(i as int), lane as int, ps, es),
            ps[0] == players_before,
            es[0] == enemies_before,
            ps.last() == players@,
            es.last() == enemies@,
        decreases n - i,
    {
        let ghost pm = players@;
        let ghost em = enemies@;
        let effect = ability.effects[i];
        proof {
            assert(ability.effects@.take(i + 1).drop_last() == ability.effects@.take(i as int));
            assert(ability.effects@.take(i + 1).last() == effect);
        }
        match effect {
            AbilityDetail::Attack(d) => {
                assert(detail_rollable(d));
                apply_attack(lane, &d, enemies);
            },
            AbilityDetail::AttackArea(d, radius) => {
                assert(detail_rollable(d));
                apply_attack_area(lane, &d, radius, enemies);
            },
            AbilityDetail::Heal(h) => {
                apply_heal(lane, h.burst_heal, players);
            },
            AbilityDetail::Revive(_) => {
                apply_revive(lane, players);
            },
            AbilityDetail::Buff(_) => {},
            AbilityDetail::SpawnAnimation(atlas_id, frame_start, frame_end) => {
                visuals.push(
                    VisualEffect { atlas_id, frame_start, frame_end, position: target_location(lane) },
                );
            },
        }
        proof {
            assert(effect_applied(pm, em, effect, lane as int, players@, enemies@));
            let next = ability.effects@.take(i + 1);
            let ps2 = ps.push(players@);
            let es2 = es.push(enemies@);
            assert forall|k: int| 0 <= k < next.len() implies effect_applied(
                ps2[k],
                es2[k],
                #[trigger] next[k],
                lane as int,
                ps2[k + 1],
                es2[k + 1],
            ) by {
                if k < i {
                    assert(next[k] == ability.effects@.take(i as int)[k]);
                } else {
                    assert(next[k] == effect);
                }
            }
            ps = ps2;
            es = es2;
        }
        i += 1;
    }
    proof {
        assert(ability.effects@.take(n as int) == ability.effects@);
        assert(effects_trace(ability.effects@, lane as int, ps, es));
    }
    visuals
}

} // verus!
