//! The fixed statistics of each kind of enemy.
use vstd::prelude::*;
use crate::combat::attack_rollable;
use crate::components::{AttackTarget, BaseAttack, Defence, Enemy, EnemyBundle};
use crate::constants::{LANE_COUNT, MELEE_RANGE, Position, lane_x, TARGET_Y};
use crate::stats::{BuffableStatistic, Health};

verus! {

#[derive(Clone, Copy, Debug, PartialEq, Eq)]
pub enum EnemyType {
    Wolf,
    Bear,
}

/// Xp granted for killing a wolf.
pub const WOLF_XP: usize = 10;
/// Xp granted for killing a bear.
pub const BEAR_XP: usize = 25;

/// The fixed numbers of a kind of enemy: health and regeneration (thousandths,
/// per second), pause between attacks (milliseconds), damage range, base
/// armour (thousandths) and xp reward.
pub open spec fn enemy_profile(t: EnemyType) -> (int, int, int, int, int, int, int) {
    match t {
        EnemyType::Wolf => (30_000, 0, 1000, 3, 5, 0, WOLF_XP as int),
        EnemyType::Bear => (50_000, 100, 950, 9, 12, 1000, BEAR_XP as int),
    }
}

/// `e` is a fresh enemy of kind `t` in `lane` standing at `position`.
pub open spec fn fresh_enemy(e: EnemyBundle, t: EnemyType, lane: int, position: Position) -> bool {
    let (health, regen, speed, min, max, armour, xp) = enemy_profile(t);
    &&& e.enemy.lane == lane
    &&& e.enemy.xp_reward == xp
    &&& e.enemy.target == (Position { x: lane_x(lane) as i64, y: TARGET_Y })
    &&& e.health.wf()
    &&& e.health.max_health.value == health
    &&& e.health.current_health == health
    &&& e.health.target_health == health
    &&& e.health.regeneration.value == regen
    &&& e.attack.attack_range == MELEE_RANGE
    &&& e.attack.attack_speed.wf()
    &&& e.attack.attack_speed.value == speed
    &&& e.attack.next_attack == 0
    &&& e.attack.min_attack_damage == min
    &&& e.attack.max_attack_damage == max
    &&& e.attack.crit_chance == 0
    &&& e.attack.fire_damage == 0
    &&& e.attack.electricity_damage == 0
    &&& e.attack.poison_damage == 0
    &&& e.attack.frost_damage == 0
    &&& e.defence.base_armour.wf()
    &&& e.defence.base_armour.value == armour
    &&& e.defence.fire_armour == 0
    &&& e.defence.electricity_armour == 0
    &&& e.defence.poison_armour == 0
    &&& e.defence.frost_armour == 0
    &&& e.attack_target == (AttackTarget { entity: None, is_obelisk: false })
    &&& e.position == position
    &&& attack_rollable(&e.attack)
}

fn enemy_with(
    lane: usize,
    position: Position,
    health: i32,
    regeneration: i32,
    attack_speed: i32,
    min: i32,
    max: i32,
    armour: i32,
    xp: usize,
) -> (r: EnemyBundle)
    requires
        lane < LANE_COUNT,
        0 <= min <= max,
    ensures
        r.enemy.lane == lane,
        r.enemy.xp_reward == xp,
        r.enemy.target == (Position { x: lane_x(lane as int) as i64, y: TARGET_Y }),
        r.health.wf(),
        r.health.max_health.value == health,
        r.health.current_health == health,
        r.health.target_health == health,
        r.health.regeneration.value == regeneration,
        r.attack.attack_range == MELEE_RANGE,
        r.attack.attack_speed.wf(),
        r.attack.attack_speed.value == attack_speed,
        r.attack.next_attack == 0,
        r.attack.min_attack_damage == min,
        r.attack.max_attack_damage == max,
        r.attack.crit_chance == 0,
        r.attack.fire_damage == 0,
        r.attack.electricity_damage == 0,
        r.attack.poison_damage == 0,
        r.attack.frost_damage == 0,
        r.defence.base_armour.wf(),
        r.defence.base_armour.value == armour,
        r.defence.fire_armour == 0,
        r.defence.electricity_armour == 0,
        r.defence.poison_armour == 0,
        r.defence.frost_armour == 0,
        r.attack_target == (AttackTarget { entity: None, is_obelisk: false }),
        r.position == position,
{
    let mut attack = BaseAttack::with_damage(min, max);
    attack.attack_range = MELEE_RANGE;
    attack.attack_speed = BuffableStatistic::new(attack_speed);
    let mut defence = Defence::default();
    defence.base_armour = BuffableStatistic::new(armour);
    EnemyBundle {
        enemy: Enemy::new(lane, xp),
        health: Health::new(health, regeneration),
        attack,
        defence,
        attack_target: AttackTarget::default(),
        position,
    }
}

fn get_wolf(lane: usize, position: Position) -> (r: EnemyBundle)
    requires
        lane < LANE_COUNT,
    ensures
        fresh_enemy(r, EnemyType::Wolf, lane as int, position),
{
    enemy_with(lane, position, 30_000, 0, 1000, 3, 5, 0, WOLF_XP)
}

fn get_bear(lane: usize, position: Position) -> (r: EnemyBundle)
    requires
        lane < LANE_COUNT,
    ensures
        fresh_enemy(r, EnemyType::Bear, lane as int, position),
{
    enemy_with(lane, position, 50_000, 100, 950, 9, 12, 1000, BEAR_XP)
}

/// A fresh enemy of kind `enemy_type` for `lane`, standing at `position`.
pub fn get_enemy_bundle(enemy_type: EnemyType, lane: usize, position: Position) -> (r: EnemyBundle)
    requires
        lane < LANE_COUNT,
    ensures
        fresh_enemy(r, enemy_type, lane as int, position),
{
    match enemy_type {
        EnemyType::Wolf => get_wolf(lane, position),
        EnemyType::Bear => get_bear(lane, position),
    }
}

} // verus!
