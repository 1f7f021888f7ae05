//! The data that actors and the game carry.
use vstd::prelude::*;
use crate::constants::{Position, LANE_COUNT, OBELISK_MAX_HEALTH, target_location, lane_x, TARGET_Y};
use crate::stats::{BuffableStatistic, Health, Mana, Movement};

verus! {

/// Data of an enemy unit.
#[derive(Clone, Copy, Debug, PartialEq, Eq)]
pub struct Enemy {
    pub lane: usize,
    /// Where it walks to.
    pub target: Position,
    pub xp_reward: usize,
}

impl Enemy {
    pub fn new(lane: usize, xp_reward: usize) -> (r: Self)
        requires
            lane < LANE_COUNT,
        ensures
            r.lane == lane,
            r.xp_reward == xp_reward,
            r.target.x == lane_x(lane as int),
            r.target.y == TARGET_Y,
    {
        Enemy { lane, target: target_location(lane), xp_reward }
    }
}

/// Whether `ids` holds `id`.
pub fn has_ability(ids: &Vec<u16>, id: u16) -> (r: bool)
    ensures
        r == ids@.contains(id),
{
    let mut i: usize = 0;
    while i < ids.len()
        invariant
            i <= ids.len(),
            forall|j: int| 0 <= j < i ==> ids@[j] != id,
        decreases ids.len() - i,
    {
        if ids[i] == id {
            return true;
        }
        i += 1;
    }
    false
}

/// A player character.
#[derive(Debug)]
pub struct Player {
    pub player_id: u8,
    pub current_lane: usize,
    pub target_lane: usize,
    pub is_moving: bool,
    /// The ids of the abilities unlocked, in the order they were bought.
    pub abilities: Vec<u16>,
}

impl Player {
    /// The next level upgrade on offer: 2 for a player with nothing, none once
    /// 2 is held, else 3.
    pub fn get_next_level(&self) -> (r: Option<u16>)
        ensures
            self.abilities@.len() == 0 ==> r == Some(2u16),
            self.abilities@.len() > 0 && self.abilities@.contains(2) ==> r == None::<u16>,
            self.abilities@.len() > 0 && !self.abilities@.contains(2) ==> r == Some(3u16),
    {
        if self.abilities.len() == 0 {
            return Some(2);
        }
        if has_ability(&self.abilities, 2) {
            return None;
        }
        Some(3)
    }
}

/// The attack of a unit. Damages are whole points; `crit_chance` is in
/// thousandths; `attack_range` in thousandths of a pixel; `attack_speed` is
/// the pause between attacks in thousandths of a second and `next_attack`
/// the game time in milliseconds of the next one.
#[derive(Debug)]
pub struct BaseAttack {
    pub attack_range: i64,
    pub attack_speed: BuffableStatistic,
    pub next_attack: i64,
    pub min_attack_damage: i32,
    pub max_attack_damage: i32,
    pub crit_chance: u32,
    pub fire_damage: i32,
    pub electricity_damage: i32,
    pub poison_damage: i32,
    pub frost_damage: i32,
}

impl BaseAttack {
    /// A plain attack of `min..=max` damage: no range, no pause, no crit and
    /// no elemental damage.
    pub fn with_damage(min: i32, max: i32) -> (r: Self)
        ensures
            r.attack_range == 0,
            r.attack_speed.wf(),
            r.next_attack == 0,
            r.min_attack_damage == min,
            r.max_attack_damage == max,
            r.crit_chance == 0,
            r.fire_damage == 0,
            r.electricity_damage == 0,
            r.poison_damage == 0,
            r.frost_damage == 0,
    {
        BaseAttack {
            attack_range: 0,
            attack_speed: BuffableStatistic::new(0),
            next_attack: 0,
            min_attack_damage: min,
            max_attack_damage: max,
            crit_chance: 0,
            fire_damage: 0,
            electricity_damage: 0,
            poison_damage: 0,
            frost_damage: 0,
        }
    }
}

/// The defence of a unit: a buffable base armour and four elemental armours.
#[derive(Debug)]
pub struct Defence {
    pub base_armour: BuffableStatistic,
    pub fire_armour: i32,
    pub electricity_armour: i32,
    pub poison_armour: i32,
    pub frost_armour: i32,
}

impl Default for Defence {
    /// No armour at all.
    fn default() -> (r: Self)
        ensures
            r.base_armour.wf(),
            r.base_armour.value == 0,
            r.fire_armour == 0,
            r.electricity_armour == 0,
            r.poison_armour == 0,
            r.frost_armour == 0,
    {
        Defence {
            base_armour: BuffableStatistic::new(0),
            fire_armour: 0,
            electricity_armour: 0,
            poison_armour: 0,
            frost_armour: 0,
        }
    }
}

/// What an enemy attacks: a player, by id (a lookup, which may find nobody),
/// or the obelisk.
#[derive(Clone, Copy, Debug, PartialEq, Eq)]
pub struct AttackTarget {
    pub entity: Option<u8>,
    pub is_obelisk: bool,
}

impl Default for AttackTarget {
    fn default() -> (r: Self)
        ensures
            r.entity == None::<u8>,
            !r.is_obelisk,
    {
        AttackTarget { entity: None, is_obelisk: false }
    }
}

/// The wave due next and when, in milliseconds of game time.
#[derive(Clone, Copy, Debug, PartialEq, Eq)]
pub struct CurrentWave {
    pub wave_idx: usize,
    pub next_wave_time: i64,
}

/// Game time of the first wave.
pub const FIRST_WAVE_TIME: i64 = 1000;

impl Default for CurrentWave {
    fn default() -> (r: Self)
        ensures
            r.wave_idx == 0,
            r.next_wave_time == FIRST_WAVE_TIME,
    {
        CurrentWave { wave_idx: 0, next_wave_time: FIRST_WAVE_TIME }
    }
}

/// Score shared by all players: xp to spend, the obelisk's health, and the
/// game time of the last obelisk warning.
#[derive(Clone, Copy, Debug, PartialEq, Eq)]
pub struct PlayerScore {
    pub xp: usize,
    pub obelisk_health: usize,
    pub last_obelisk_damage: i64,
}

impl Default for PlayerScore {
    fn default() -> (r: Self)
        ensures
            r.xp == 0,
            r.obelisk_health == OBELISK_MAX_HEALTH,
            r.last_obelisk_damage == 0,
    {
        PlayerScore { xp: 0, obelisk_health: OBELISK_MAX_HEALTH, last_obelisk_damage: 0 }
    }
}

/// Marks a downed player; `is_revived` is set by a revive and acted on by
/// the revival step.
#[derive(Clone, Copy, Debug, PartialEq, Eq)]
pub struct Incapacitated {
    /// 0 for indefinite.
    pub end_time: i64,
    pub is_revived: bool,
}

impl Default for Incapacitated {
    fn default() -> (r: Self)
        ensures
            r.end_time == 0,
            !r.is_revived,
    {
        Incapacitated { end_time: 0, is_revived: false }
    }
}

/// An action slot: the ability bound to it and the game time from which it
/// can be cast again.
#[derive(Clone, Copy, Debug, PartialEq, Eq)]
pub struct AbilityActionDetails {
    pub action: Option<u16>,
    pub next_available: i64,
}

/// The action slots of a player.
#[derive(Debug)]
pub struct PlayerAbilityActions {
    pub actions: Vec<AbilityActionDetails>,
}

/// A request to change a player's target lane by `delta`.
#[derive(Clone, Copy, Debug, PartialEq, Eq)]
pub struct PlayerLaneChangeLink {
    pub player_id: u8,
    pub delta: i8,
}

/// A request to cast the ability in one of a player's action slots.
#[derive(Clone, Copy, Debug, PartialEq, Eq)]
pub struct PlayerAbilityButtonInteraction {
    pub player_id: u8,
    pub action_number: u8,
}

/// A request to buy an ability for a player.
#[derive(Clone, Copy, Debug, PartialEq, Eq)]
pub struct AbilityPurchaseInteraction {
    pub player_id: u8,
    pub ability_id: u16,
}

/// An enemy on the battlefield.
#[derive(Debug)]
pub struct EnemyBundle {
    pub attack: BaseAttack,
    pub defence: Defence,
    pub enemy: Enemy,
    pub health: Health,
    pub attack_target: AttackTarget,
    pub position: Position,
}

/// A player on the battlefield; `incapacitated` is set while they are down.
#[derive(Debug)]
pub struct PlayerBundle {
    pub movement: Movement,
    pub health: Health,
    pub mana: Mana,
    pub attack: BaseAttack,
    pub defence: Defence,
    pub player: Player,
    pub actions: PlayerAbilityActions,
    pub position: Position,
    pub incapacitated: Option<Incapacitated>,
}

} // verus!
