//! The starting statistics of a player.
use vstd::prelude::*;
use crate::combat::attack_rollable;
use crate::components::{
    AbilityActionDetails, BaseAttack, Defence, Player, PlayerAbilityActions, PlayerBundle,
};
use crate::constants::{LANE_COUNT, MELEE_RANGE, PLAYER_OFFSET_Y, Position, TARGET_Y, lane_x};
use crate::pipeline::player_wf;
use crate::abilities::ACTION_SLOTS;
use crate::stats::{BuffableStatistic, Health, Mana, Movement};

verus! {

/// A fresh player `player_id` standing in `lane`, just behind its target
/// point: 100 health, 200 mana, speed 75, an attack of 10 to 15 every 1.5 s
/// with a 5% crit chance, 1 armour, and two empty action slots.
pub fn get_player(player_id: u8, lane: usize) -> (r: PlayerBundle)
    requires
        lane < LANE_COUNT,
    ensures
        player_wf(&r),
        r.player.player_id == player_id,
        r.player.current_lane == lane,
        r.player.target_lane == lane,
        !r.player.is_moving,
        r.player.abilities@.len() == 0,
        r.health.max_health.value == 100_000,
        r.health.current_health == 100_000,
        r.health.target_health == 100_000,
        r.health.regeneration.value == 0,
        r.mana.max_mana.value == 200_000,
        r.mana.current_mana == 200_000,
        r.movement.movement_speed.value == 75_000,
        r.attack.attack_range == MELEE_RANGE,
        r.attack.attack_speed.wf(),
        r.attack.attack_speed.value == 1500,
        r.attack.min_attack_damage == 10,
        r.attack.max_attack_damage == 15,
        r.attack.crit_chance == 50,
        attack_rollable(&r.attack),
        r.defence.base_armour.value == 1000,
        r.actions.actions@.len() == ACTION_SLOTS,
        forall|s: int|
            0 <= s < ACTION_SLOTS ==> #[trigger] r.actions.actions@[s] == (AbilityActionDetails {
                action: None,
                next_available: i64::MAX,
            }),
        r.position == (Position { x: lane_x(lane as int) as i64, y: (TARGET_Y - PLAYER_OFFSET_Y) as i64 }),
        r.incapacitated.is_none(),
{
    let mut attack = BaseAttack::with_damage(10, 15);
    attack.attack_range = MELEE_RANGE;
    attack.attack_speed = BuffableStatistic::new(1500);
    attack.crit_chance = 50;
    let mut defence = Defence::default();
    defence.base_armour = BuffableStatistic::new(1000);
    let empty = AbilityActionDetails { action: None, next_available: i64::MAX };
    let spot = crate::constants::target_location(lane);
    PlayerBundle {
        health: Health::new(100_000, 0),
        mana: Mana::new(200_000),
        movement: Movement { movement_speed: BuffableStatistic::new(75_000) },
        player: Player {
            player_id,
            current_lane: lane,
            target_lane: lane,
            is_moving: false,
            abilities: Vec::new(),
        },
        attack,
        defence,
        actions: PlayerAbilityActions { actions: vec![empty, empty] },
        position: Position { x: spot.x, y: TARGET_Y - PLAYER_OFFSET_Y },
        incapacitated: None,
    }
}

} // verus!
