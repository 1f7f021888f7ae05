//! Ability definitions and the catalogue of them.
//!
//! Ability ids are namespaced by role: 0–999 general, 1000–1999 healer,
//! 2000–2999 rogue, 3000–3999 warrior.
use vstd::prelude::*;
use std::collections::HashMap;
use crate::stats::Buff;

verus! {

broadcast use vstd::std_specs::hash::group_hash_axioms;

#[derive(Clone, Copy, Debug, PartialEq, Eq)]
pub enum BuffType {
    Armour,
    Health,
    Mana,
    Regeneration,
    MovementSpeed,
}

#[derive(Clone, Copy, Debug, PartialEq, Eq)]
pub enum DamageType {
    Pure,
    Posion,
    Shock,
    Ice,
    Fire,
}

/// Damage dealt by an attacking ability, in whole points.
#[derive(Clone, Copy, Debug, PartialEq, Eq)]
pub struct AbilityAttackDetail {
    pub damage_type: DamageType,
    pub min_damage: i32,
    pub max_damage: i32,
}

/// A buff granted to one of the owner's statistics.
#[derive(Clone, Copy, Debug, PartialEq, Eq)]
pub struct AbilityBuffDetail {
    pub buff_type: BuffType,
    pub buff: Buff,
}

/// Health given at once, in thousandths.
#[derive(Clone, Copy, Debug, PartialEq, Eq)]
pub struct AbilityHealDetail {
    pub burst_heal: i64,
}

/// A revive; `revive_time` in milliseconds.
#[derive(Clone, Copy, Debug, PartialEq, Eq)]
pub struct AbilityReviveDetail {
    pub revive_time: i64,
}

/// One effect of an ability.
#[derive(Clone, Copy, Debug, PartialEq, Eq)]
pub enum AbilityDetail {
    /// Hits the first living enemy in melee range of the lane's target point.
    Attack(AbilityAttackDetail),
    /// Hits every living enemy within the radius (thousandths of a pixel) of
    /// the lane's target point.
    AttackArea(AbilityAttackDetail, u32),
    Buff(AbilityBuffDetail),
    Heal(AbilityHealDetail),
    Revive(AbilityReviveDetail),
    /// Plays an animation: atlas id, first frame, last frame.
    SpawnAnimation(u128, usize, usize),
}

/// The number of action slots a player has.
pub const ACTION_SLOTS: usize = 2;

/// Atlas of the flame wall animation.
pub const FLAME_WALL_ID: u128 = 24098760324850394860349856;
/// Atlas of the heal animation.
pub const HEAL_ID: u128 = 3409856304958034598;

/// An ability: what it costs in xp, what must be owned first, whether it is
/// passive or goes into an action slot (1-based), its cooldown in
/// milliseconds, its mana cost in thousandths, and its effects in order.
#[derive(Debug)]
pub struct AbilityDefinition {
    pub id: u16,
    pub prerequisites: Vec<u16>,
    pub xp_cost: usize,
    pub mana_cost: i64,
    pub passive: bool,
    pub slot_number: usize,
    pub cooldown: i64,
    pub name: String,
    pub description: String,
    pub effects: Vec<AbilityDetail>,
}

impl AbilityDefinition {
    /// An active ability names one of the action slots, and every attack it
    /// makes can be rolled.
    pub open spec fn wf(&self) -> bool {
        &&& !self.passive ==> 1 <= self.slot_number <= ACTION_SLOTS
        &&& crate::effects::effects_rollable(self.effects@)
    }
}

/// A request to buy an ability for a player.
#[derive(Clone, Copy, Debug, PartialEq, Eq)]
pub struct AbilityPurchaseRequest {
    pub player_id: u8,
    pub ability_id: u16,
}

/// The ids the catalogue holds.
pub open spec fn is_catalog_id(id: u16) -> bool {
    id == 0 || id == 1 || id == 2 || id == 1000 || id == 1001 || id == 2000 || id == 2001 || id
        == 3000 || id == 3001
}

/// The xp each catalogue ability costs.
pub open spec fn catalog_xp_cost(id: u16) -> int {
    if id == 0 {
        50
    } else if id == 1 {
        150
    } else if id == 2 || id == 1000 {
        300
    } else {
        200
    }
}

/// What each catalogue ability needs first: each level its previous one.
pub open spec fn catalog_prerequisites(id: u16) -> Seq<u16> {
    if id == 1 {
        seq![0u16]
    } else if id == 2 {
        seq![1u16]
    } else {
        seq![]
    }
}

/// The slot of each active catalogue ability.
pub open spec fn catalog_slot(id: u16) -> int {
    if id == 1000 || id == 2000 || id == 3000 {
        1
    } else if id == 1001 || id == 2001 || id == 3001 {
        2
    } else {
        0
    }
}

/// The cooldown of each catalogue ability, in milliseconds.
pub open spec fn catalog_cooldown(id: u16) -> int {
    if id == 1000 || id == 2000 || id == 3000 {
        15_000
    } else if id == 1001 {
        12_000
    } else if id == 2001 || id == 3001 {
        20_000
    } else {
        0
    }
}

pub open spec fn buff_effect(kind: BuffType, amount: i32) -> AbilityDetail {
    AbilityDetail::Buff(
        AbilityBuffDetail { buff_type: kind, buff: Buff { expiry: 0, percentage: 0, amount } },
    )
}

pub open spec fn attack_detail(kind: DamageType, min: i32, max: i32) -> AbilityAttackDetail {
    AbilityAttackDetail { damage_type: kind, min_damage: min, max_damage: max }
}

/// The effects of each catalogue ability: the levels raise statistics for
/// good, the active abilities attack, heal or revive and show an animation.
pub open spec fn catalog_effects(id: u16) -> Seq<AbilityDetail> {
    if id == 0 {
        seq![buff_effect(BuffType::Health, 50_000), buff_effect(BuffType::Mana, 50_000)]
    } else if id == 1 {
        seq![buff_effect(BuffType::Health, 50_000), buff_effect(BuffType::MovementSpeed, 25_000)]
    } else if id == 2 {
        seq![buff_effect(BuffType::Health, 50_000), buff_effect(BuffType::Regeneration, 2_000)]
    } else if id == 1000 {
        seq![
            AbilityDetail::AttackArea(attack_detail(DamageType::Fire, 10, 30), 96_000),
            AbilityDetail::SpawnAnimation(FLAME_WALL_ID, 0, 9),
        ]
    } else if id == 1001 {
        seq![AbilityDetail::Attack(attack_detail(DamageType::Fire, 30, 60))]
    } else if id == 2000 {
        seq![
            AbilityDetail::Heal(AbilityHealDetail { burst_heal: 50_000 }),
            AbilityDetail::SpawnAnimation(HEAL_ID, 0, 7),
        ]
    } else if id == 2001 {
        seq![
            AbilityDetail::Revive(AbilityReviveDetail { revive_time: 0 }),
            AbilityDetail::SpawnAnimation(HEAL_ID, 0, 7),
        ]
    } else if id == 3000 {
        seq![AbilityDetail::Attack(attack_detail(DamageType::Pure, 15, 75))]
    } else {
        seq![AbilityDetail::AttackArea(attack_detail(DamageType::Pure, 20, 50), 50_000)]
    }
}

/// The mana each catalogue ability costs, in thousandths.
pub open spec fn catalog_mana_cost(id: u16) -> int {
    if id == 1000 || id == 1001 || id == 2000 {
        30_000
    } else if id == 2001 {
        60_000
    } else if id == 3000 || id == 3001 {
        20_000
    } else {
        0
    }
}

/// The name and description shown for each catalogue ability.
pub open spec fn catalog_text(id: u16) -> (Seq<char>, Seq<char>) {
    if id == 0 {
        ("Level 2"@, "+50 health, +50 mana"@)
    } else if id == 1 {
        ("Level 3"@, "+50 health, +25 speed"@)
    } else if id == 2 {
        ("Level 4"@, "+100 health, +2 regen"@)
    } else if id == 1000 {
        ("Flame Wall"@, "Fire, walled"@)
    } else if id == 1001 {
        ("Flame Bash"@, "Fire, bashed"@)
    } else if id == 2000 {
        ("Heal"@, "Heal nearby heroes"@)
    } else if id == 2001 {
        ("Revive"@, "Revive nearby heroes"@)
    } else {
        ("Smash"@, "Hit a single enemy, very hard"@)
    }
}

/// The read-only catalogue of abilities, by id.
pub struct AbilityDatabase {
    pub abilities: HashMap<u16, AbilityDefinition>,
}

impl AbilityDatabase {
    /// Each entry is filed under its own id and is well formed.
    pub open spec fn wf(&self) -> bool {
        forall|id: u16| #[trigger]
            self.abilities@.contains_key(id) ==> self.abilities@[id].id == id
                && self.abilities@[id].wf()
    }

    /// The definition of `id`, which must be in the catalogue.
    pub fn get(&self, id: u16) -> (r: &AbilityDefinition)
        requires
            self.abilities@.contains_key(id),
        ensures
            *r == self.abilities@[id],
    {
        self.abilities.get(&id).unwrap()
    }

    /// The game's catalogue: three level upgrades, then two abilities each
    /// for the healer, rogue and warrior paths.
    pub fn new() -> (r: Self)
        ensures
            r.wf(),
            forall|id: u16| #[trigger] r.abilities@.contains_key(id) <==> is_catalog_id(id),
            forall|id: u16| #[trigger]
                r.abilities@.contains_key(id) ==> {
                    let d = r.abilities@[id];
                    &&& d.xp_cost == catalog_xp_cost(id)
                    &&& d.prerequisites@ == catalog_prerequisites(id)
                    &&& (d.passive <==> id < 1000)
                    &&& (!d.passive ==> d.slot_number == catalog_slot(id))
                    &&& d.cooldown == catalog_cooldown(id)
                    &&& d.effects@ == catalog_effects(id)
                    &&& d.mana_cost == catalog_mana_cost(id)
                    &&& d.name@ == catalog_text(id).0
                    &&& d.description@ == catalog_text(id).1
                },
    {
        let mut abilities: HashMap<u16, AbilityDefinition> = HashMap::new();
        abilities.insert(
            0,
            AbilityDefinition {
                id: 0,
                xp_cost: 50,
                prerequisites: vec![],
                name: "Level 2".to_owned(),
                description: "+50 health, +50 mana".to_owned(),
                passive: true,
                slot_number: 0,
                cooldown: 0,
                mana_cost: 0,
                effects: vec![
                    AbilityDetail::Buff(
                        AbilityBuffDetail {
                            buff_type: BuffType::Health,
                            buff: Buff { expiry: 0, percentage: 0, amount: 50_000 },
                        },
                    ),
                    AbilityDetail::Buff(
                        AbilityBuffDetail {
                            buff_type: BuffType::Mana,
                            buff: Buff { expiry: 0, percentage: 0, amount: 50_000 },
                        },
                    ),
                ],
            },
        );
        abilities.insert(
            1,
            AbilityDefinition {
                id: 1,
                xp_cost: 150,
                prerequisites: vec![0],
                name: "Level 3".to_owned(),
                description: "+50 health, +25 speed".to_owned(),
                passive: true,
                slot_number: 0,
                cooldown: 0,
                mana_cost: 0,
                effects: vec![
                    AbilityDetail::Buff(
                        AbilityBuffDetail {
                            buff_type: BuffType::Health,
                            buff: Buff { expiry: 0, percentage: 0, amount: 50_000 },
                        },
                    ),
                    AbilityDetail::Buff(
                        AbilityBuffDetail {
                            buff_type: BuffType::MovementSpeed,
                            buff: Buff { expiry: 0, percentage: 0, amount: 25_000 },
                        },
                    ),
                ],
            },
        );
        abilities.insert(
            2,
            AbilityDefinition {
                id: 2,
                xp_cost: 300,
                prerequisites: vec![1],
                name: "Level 4".to_owned(),
                description: "+100 health, +2 regen".to_owned(),
                passive: true,
                slot_number: 0,
                cooldown: 0,
                mana_cost: 0,
                effects: vec![
                    AbilityDetail::Buff(
                        AbilityBuffDetail {
                            buff_type: BuffType::Health,
                            buff: Buff { expiry: 0, percentage: 0, amount: 50_000 },
                        },
                    ),
                    AbilityDetail::Buff(
                        AbilityBuffDetail {
                            buff_type: BuffType::Regeneration,
                            buff: Buff { expiry: 0, percentage: 0, amount: 2_000 },
                        },
                    ),
                ],
            },
        );
        abilities.insert(
            1000,
            AbilityDefinition {
                id: 1000,
                xp_cost: 300,
                prerequisites: vec![],
                name: "Flame Wall".to_owned(),
                description: "Fire, walled".to_owned(),
                passive: false,
                slot_number: 1,
                cooldown: 15_000,
                mana_cost: 30_000,
                effects: vec![
                    AbilityDetail::AttackArea(
                        AbilityAttackDetail {
                            damage_type: DamageType::Fire,
                            min_damage: 10,
                            max_damage: 30,
                        },
                        96_000,
                    ),
                    AbilityDetail::SpawnAnimation(FLAME_WALL_ID, 0, 9),
                ],
            },
        );
        abilities.insert(
            1001,
            AbilityDefinition {
                id: 1001,
                xp_cost: 200,
                prerequisites: vec![],
                name: "Flame Bash".to_owned(),
                description: "Fire, bashed".to_owned(),
                passive: false,
                slot_number: 2,
                cooldown: 12_000,
                mana_cost: 30_000,
                effects: vec![
                    AbilityDetail::Attack(
                        AbilityAttackDetail {
                            damage_type: DamageType::Fire,
                            min_damage: 30,
                            max_damage: 60,
                        },
                    ),
                ],
            },
        );
        abilities.insert(
            2000,
            AbilityDefinition {
                id: 2000,
                xp_cost: 200,
                prerequisites: vec![],
                name: "Heal".to_owned(),
                description: "Heal nearby heroes".to_owned(),
                passive: false,
                slot_number: 1,
                cooldown: 15_000,
                mana_cost: 30_000,
                effects: vec![
                    AbilityDetail::Heal(AbilityHealDetail { burst_heal: 50_000 }),
                    AbilityDetail::SpawnAnimation(HEAL_ID, 0, 7),
                ],
            },
        );
        abilities.insert(
            2001,
            AbilityDefinition {
                id: 2001,
                xp_cost: 200,
                prerequisites: vec![],
                name: "Revive".to_owned(),
                description: "Revive nearby heroes".to_owned(),
                passive: false,
                slot_number: 2,
                cooldown: 20_000,
                mana_cost: 60_000,
                effects: vec![
                    AbilityDetail::Revive(AbilityReviveDetail { revive_time: 0 }),
                    AbilityDetail::SpawnAnimation(HEAL_ID, 0, 7),
                ],
            },
        );
        abilities.insert(
            3000,
            AbilityDefinition {
                id: 3000,
                xp_cost: 200,
                prerequisites: vec![],
                name: "Smash".to_owned(),
                description: "Hit a single enemy, very hard".to_owned(),
                passive: false,
                slot_number: 1,
                cooldown: 15_000,
                mana_cost: 20_000,
                effects: vec![
                    AbilityDetail::Attack(
                        AbilityAttackDetail {
                            damage_type: DamageType::Pure,
                            min_damage: 15,
                            max_damage: 75,
                        },
                    ),
                ],
            },
        );
        abilities.insert(
            3001,
            AbilityDefinition {
                id: 3001,
                xp_cost: 200,
                prerequisites: vec![],
                name: "Smash".to_owned(),
                description: "Hit a single enemy, very hard".to_owned(),
                passive: false,
                slot_number: 2,
                cooldown: 20_000,
                mana_cost: 20_000,
                effects: vec![
                    AbilityDetail::AttackArea(
                        AbilityAttackDetail {
                            damage_type: DamageType::Pure,
                            min_damage: 20,
                            max_damage: 50,
                        },
                        50_000,
                    ),
                ],
            },
        );
        let r = AbilityDatabase { abilities };
        assert(r.abilities@[1].prerequisites@ == catalog_prerequisites(1));
        assert(r.abilities@[2].prerequisites@ == catalog_prerequisites(2));
        assert(r.abilities@[0].effects@ == catalog_effects(0));
        assert(r.abilities@[1].effects@ == catalog_effects(1));
        assert(r.abilities@[2].effects@ == catalog_effects(2));
        assert(r.abilities@[1000].effects@ == catalog_effects(1000));
        assert(r.abilities@[1001].effects@ == catalog_effects(1001));
        assert(r.abilities@[2000].effects@ == catalog_effects(2000));
        assert(r.abilities@[2001].effects@ == catalog_effects(2001));
        assert(r.abilities@[3000].effects@ == catalog_effects(3000));
        assert(r.abilities@[3001].effects@ == catalog_effects(3001));
        r
    }
}

} // verus!
