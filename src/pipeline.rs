//! The ability pipeline: buying an ability and casting one from an action
//! slot. Applying a cast is in `effects`.
use vstd::prelude::*;
use crate::abilities::{
    ACTION_SLOTS, AbilityDatabase, AbilityDefinition, AbilityDetail, AbilityPurchaseRequest,
    BuffType,
};
use crate::components::{AbilityActionDetails, PlayerBundle, PlayerScore, has_ability};
use crate::stats::{Buff, buffed, lemma_buffed_push, stat_value, saturate, clamp_to_i64};

verus! {

/// How a purchase request ended.
#[derive(Clone, Copy, Debug, PartialEq, Eq)]
pub enum PurchaseOutcome {
    Purchased,
    TooExpensive,
    NoSuchPlayer,
    AlreadyOwned,
    MissingPrerequisite,
}

/// Whether every id of `needed` is in `owned`.
pub open spec fn owns_all(owned: Seq<u16>, needed: Seq<u16>) -> bool {
    forall|i: int| 0 <= i < needed.len() ==> owned.contains(#[trigger] needed[i])
}

/// The verdict on buying an ability of this cost, id and prerequisites with
/// `xp` to spend, for a player who owns `owned`: too dear first, then already
/// owned, then a prerequisite missing.
pub open spec fn purchase_verdict(
    cost: int,
    prerequisites: Seq<u16>,
    id: u16,
    xp: int,
    owned: Seq<u16>,
) -> PurchaseOutcome {
    if cost > xp {
        PurchaseOutcome::TooExpensive
    } else if owned.contains(id) {
        PurchaseOutcome::AlreadyOwned
    } else if !owns_all(owned, prerequisites) {
        PurchaseOutcome::MissingPrerequisite
    } else {
        PurchaseOutcome::Purchased
    }
}

/// The buffs among `effects` for the statistic of `kind`, in order.
pub open spec fn buffs_of(effects: Seq<AbilityDetail>, kind: BuffType) -> Seq<Buff>
    decreases effects.len(),
{
    if effects.len() == 0 {
        seq![]
    } else {
        let rest = buffs_of(effects.drop_last(), kind);
        match effects.last() {
            AbilityDetail::Buff(d) => if d.buff_type == kind {
                rest.push(d.buff)
            } else {
                rest
            },
            _ => rest,
        }
    }
}

/// The statistics of a player are consistent.
pub open spec fn player_wf(p: &PlayerBundle) -> bool {
    &&& p.health.wf()
    &&& p.mana.max_mana.wf()
    &&& p.movement.movement_speed.wf()
    &&& p.defence.base_armour.wf()
}

/// What a purchase does to a player: the id appended to their abilities; an
/// active ability bound to its slot, ready at once; every buff among the
/// effects added to its statistic and swept at `now`, the value recomputed;
/// health and mana refilled to a raised maximum.
pub open spec fn purchase_applied(
    old_p: &PlayerBundle,
    new_p: &PlayerBundle,
    ability: &AbilityDefinition,
    now: int,
) -> bool {
    let e = ability.effects@;
    &&& player_wf(new_p)
    &&& new_p.player.abilities@ == old_p.player.abilities@.push(ability.id)
    &&& new_p.player.player_id == old_p.player.player_id
    &&& new_p.player.current_lane == old_p.player.current_lane
    &&& new_p.player.target_lane == old_p.player.target_lane
    &&& new_p.player.is_moving == old_p.player.is_moving
    &&& new_p.position == old_p.position
    &&& new_p.incapacitated == old_p.incapacitated
    &&& new_p.attack == old_p.attack
    &&& (if ability.passive {
        new_p.actions == old_p.actions
    } else {
        new_p.actions.actions@ == old_p.actions.actions@.update(
            ability.slot_number - 1,
            AbilityActionDetails { action: Some(ability.id), next_available: 0 },
        )
    })
    &&& buff_effects_applied(old_p, new_p, e, now)
}

/// A statistic given `added` buffs at `now`: its buffs are the old ones and
/// the added ones swept at `now`, and its value is recomputed; given none, it
/// is as it was.
pub open spec fn stat_buffed(
    old_buffs: Seq<Buff>,
    new_buffs: Seq<Buff>,
    old_base: int,
    new_base: int,
    new_value: int,
    old_value: int,
    added: Seq<Buff>,
    now: int,
) -> bool {
    &&& new_base == old_base
    &&& new_buffs == buffed(old_buffs, added, now)
    &&& if added.len() > 0 {
        new_value == stat_value(old_base, new_buffs)
    } else {
        new_value == old_value
    }
}

/// Buys `ability` for `player` with the shared xp of `score`, when it is
/// affordable, not yet owned, and all its prerequisites are owned. On
/// success the xp is paid and the player changes as `purchase_applied` says;
/// otherwise nothing changes.
pub fn purchase_ability(
    ability: &AbilityDefinition,
    now: i64,
    score: &mut PlayerScore,
    player: &mut PlayerBundle,
) -> (r: PurchaseOutcome)
    requires
        ability.wf(),
        player_wf(old(player)),
        !ability.passive ==> ability.slot_number <= old(player).actions.actions@.len(),
    ensures
        r == purchase_verdict(
            ability.xp_cost as int,
            ability.prerequisites@,
            ability.id,
            old(score).xp as int,
            old(player).player.abilities@,
        ),
        r == PurchaseOutcome::Purchased ==> {
            &&& final(score).xp == old(score).xp - ability.xp_cost
            &&& final(score).obelisk_health == old(score).obelisk_health
            &&& final(score).last_obelisk_damage == old(score).last_obelisk_damage
            &&& purchase_applied(old(player), final(player), ability, now as int)
        },
        r != PurchaseOutcome::Purchased ==> *final(score) == *old(score) && *final(player) == *old(
            player,
        ),
{
    if ability.xp_cost > score.xp {
        return PurchaseOutcome::TooExpensive;
    }
    if has_ability(&player.player.abilities, ability.id) {
        return PurchaseOutcome::AlreadyOwned;
    }
    let mut k: usize = 0;
    while k < ability.prerequisites.len()
        invariant
            k <= ability.prerequisites.len(),
            *player == *old(player),
            *score == *old(score),
            !old(player).player.abilities@.contains(ability.id),
            ability.xp_cost <= old(score).xp,
            forall|j: int|
                0 <= j < k ==> player.player.abilities@.contains(#[trigger] ability.prerequisites@[j]),
        decreases ability.prerequisites.len() - k,
    {
        if !has_ability(&player.player.abilities, ability.prerequisites[k]) {
            assert(!player.player.abilities@.contains(ability.prerequisites@[k as int]));
            return PurchaseOutcome::MissingPrerequisite;
        }
        k += 1;
    }
    player.player.abilities.push(ability.id);
    if !ability.passive {
        let slot = ability.slot_number - 1;
        player.actions.actions.set(
            slot,
            AbilityActionDetails { action: Some(ability.id), next_available: 0 },
        );
    }
    apply_buff_effects(ability, now, player);
    score.xp = score.xp - ability.xp_cost;
    PurchaseOutcome::Purchased
}

/// Once a player has bought an ability, buying it again for them is turned
/// down, whatever xp there is.
pub proof fn lemma_repurchase_rejected(
    cost: int,
    prerequisites: Seq<u16>,
    id: u16,
    xp: int,
    later_xp: int,
    owned: Seq<u16>,
)
    requires
        purchase_verdict(cost, prerequisites, id, xp, owned) == PurchaseOutcome::Purchased,
    ensures
        purchase_verdict(cost, prerequisites, id, later_xp, owned.push(id))
            != PurchaseOutcome::Purchased,
        cost <= later_xp ==> purchase_verdict(cost, prerequisites, id, later_xp, owned.push(id))
            == PurchaseOutcome::AlreadyOwned,
{
    assert(owned.push(id)[owned.len() as int] == id);
}

/// Every player is consistent and has all the action slots.
pub open spec fn players_wf(players: Seq<PlayerBundle>) -> bool {
    forall|i: int|
        0 <= i < players.len() ==> player_wf(&#[trigger] players[i])
            && players[i].actions.actions@.len() == ACTION_SLOTS
}

/// `i` is the first player in `players` with this id.
pub open spec fn first_with_id(players: Seq<PlayerBundle>, id: u8, i: int) -> bool {
    &&& 0 <= i < players.len()
    &&& players[i].player.player_id == id
    &&& forall|j: int| 0 <= j < i ==> (#[trigger] players[j]).player.player_id != id
}

/// The index of the first player with id `id`, if any.
pub fn find_player(players: &Vec<PlayerBundle>, id: u8) -> (r: Option<usize>)
    ensures
        match r {
            Some(i) => first_with_id(players@, id, i as int),
            None => forall|j: int| 0 <= j < players@.len() ==> (#[trigger] players@[j]).player.player_id != id,
        },
{
    let mut i: usize = 0;
    while i < players.len()
        invariant
            i <= players.len(),
            forall|j: int| 0 <= j < i ==> (#[trigger] players@[j]).player.player_id != id,
        decreases players.len() - i,
    {
        if players[i].player.player_id == id {
            return Some(i);
        }
        i += 1;
    }
    None
}

/// Handles one purchase request: too dear is turned down first; then the
/// first player with the request's id buys the ability as `purchase_ability`
/// says; with no such player nothing happens.
pub fn ability_purchase_system(
    now: i64,
    database: &AbilityDatabase,
    score: &mut PlayerScore,
    request: &AbilityPurchaseRequest,
    players: &mut Vec<PlayerBundle>,
) -> (r: PurchaseOutcome)
    requires
        database.wf(),
        database.abilities@.contains_key(request.ability_id),
        players_wf(old(players)@),
    ensures
        ({
            let ability = database.abilities@[request.ability_id];
            if ability.xp_cost > old(score).xp {
                &&& r == PurchaseOutcome::TooExpensive
                &&& *final(score) == *old(score)
                &&& final(players)@ == old(players)@
            } else if forall|j: int|
                0 <= j < old(players)@.len() ==> (#[trigger] old(players)@[j]).player.player_id
                    != request.player_id {
                &&& r == PurchaseOutcome::NoSuchPlayer
                &&& *final(score) == *old(score)
                &&& final(players)@ == old(players)@
            } else {
                exists|i: int|
                    {
                        &&& first_with_id(old(players)@, request.player_id, i)
                        &&& r == purchase_verdict(
                            ability.xp_cost as int,
                            ability.prerequisites@,
                            ability.id,
                            old(score).xp as int,
                            old(players)@[i].player.abilities@,
                        )
                        &&& final(players)@.len() == old(players)@.len()
                        &&& forall|j: int|
                            0 <= j < old(players)@.len() && j != i ==> #[trigger] final(players)@[j]
                                == old(players)@[j]
                        &&& if r == PurchaseOutcome::Purchased {
                            &&& final(score).xp == old(score).xp - ability.xp_cost
                            &&& final(score).obelisk_health == old(score).obelisk_health
                            &&& final(score).last_obelisk_damage == old(score).last_obelisk_damage
                            &&& purchase_applied(
                                &old(players)@[i],
                                &final(players)@[i],
                                &ability,
                                now as int,
                            )
                        } else {
                            &&& *final(score) == *old(score)
                            &&& final(players)@ == old(players)@
                        }
                    }
            }
        }),
        players_wf(final(players)@),
{
    let ability = database.get(request.ability_id);
    if ability.xp_cost > score.xp {
        return PurchaseOutcome::TooExpensive;
    }
    match find_player(players, request.player_id) {
        None => PurchaseOutcome::NoSuchPlayer,
        Some(i) => {
            let ghost before = players@;
            let r = purchase_ability(ability, now, score, &mut players[i]);
            proof {
                if r != PurchaseOutcome::Purchased {
                    assert(players@ =~= before);
                }
                assert(forall|j: int| 0 <= j < before.len() && j != i ==> players@[j] == before[j]);
                assert(first_with_id(before, request.player_id, i as int));
            }
            r
        },
    }
}

/// Adds every buff among the ability's effects to its statistic, sweeping it
/// at `now`, and refills health or mana whose maximum was raised.
fn apply_buff_effects(ability: &AbilityDefinition, now: i64, player: &mut PlayerBundle)
    requires
        player_wf(old(player)),
    ensures
        player_wf(final(player)),
        final(player).player == old(player).player,
        final(player).actions == old(player).actions,
        final(player).position == old(player).position,
        final(player).incapacitated == old(player).incapacitated,
        final(player).attack == old(player).attack,
        buff_effects_applied(old(player), final(player), ability.effects@, now as int),
{
    let ghost start = *player;
    let n = ability.effects.len();
    let mut i: usize = 0;
    while i < n
        invariant
            n == ability.effects.len(),
            i <= n,
            player_wf(player),
            player.player == start.player,
            player.actions == start.actions,
            player.position == start.position,
            player.incapacitated == start.incapacitated,
            player.attack == start.attack,
            buff_effects_applied(&start, player, ability.effects@.take(i as int), now as int),
        decreases n - i,
    {
        let ghost e = ability.effects@.take(i as int);
        proof {
            assert(ability.effects@.take(i + 1).drop_last() == e);
            assert(ability.effects@.take(i + 1).last() == ability.effects@[i as int]);
        }
        match ability.effects[i] {
            AbilityDetail::Buff(detail) => {
                let b = detail.buff;
                match detail.buff_type {
                    BuffType::Armour => {
                        player.defence.base_armour.apply_buff(b, now);
                        proof {
                            lemma_buffed_push(start.defence.base_armour.buffs@, buffs_of(e, BuffType::Armour), b, now as int);
                        }
                    },
                    BuffType::Health => {
                        player.health.max_health.apply_buff(b, now);
                        player.health.current_health = player.health.max_health.value;
                        player.health.target_health = player.health.current_health;
                        proof {
                            lemma_buffed_push(start.health.max_health.buffs@, buffs_of(e, BuffType::Health), b, now as int);
                        }
                    },
                    BuffType::Mana => {
                        player.mana.max_mana.apply_buff(b, now);
                        player.mana.current_mana = player.mana.max_mana.value;
                        proof {
                            lemma_buffed_push(start.mana.max_mana.buffs@, buffs_of(e, BuffType::Mana), b, now as int);
                        }
                    },
                    BuffType::Regeneration => {
                        player.health.regeneration.apply_buff(b, now);
                        proof {
                            lemma_buffed_push(start.health.regeneration.buffs@, buffs_of(e, BuffType::Regeneration), b, now as int);
                        }
                    },
                    BuffType::MovementSpeed => {
                        player.movement.movement_speed.apply_buff(b, now);
                        proof {
                            lemma_buffed_push(start.movement.movement_speed.buffs@, buffs_of(e, BuffType::MovementSpeed), b, now as int);
                        }
                    },
                }
            },
            _ => {},
        }
        i += 1;
    }
    proof {
        assert(ability.effects@.take(n as int) == ability.effects@);
    }
}

/// A player after the buffs among `effects` were applied at `now`.
pub open spec fn buff_effects_applied(
    old_p: &PlayerBundle,
    new_p: &PlayerBundle,
    effects: Seq<AbilityDetail>,
    now: int,
) -> bool {
    &&& stat_buffed(
        old_p.defence.base_armour.buffs@,
        new_p.defence.base_armour.buffs@,
        old_p.defence.base_armour.base_value as int,
        new_p.defence.base_armour.base_value as int,
        new_p.defence.base_armour.value as int,
        old_p.defence.base_armour.value as int,
        buffs_of(effects, BuffType::Armour),
        now,
    )
    &&& stat_buffed(
        old_p.health.max_health.buffs@,
        new_p.health.max_health.buffs@,
        old_p.health.max_health.base_value as int,
        new_p.health.max_health.base_value as int,
        new_p.health.max_health.value as int,
        old_p.health.max_health.value as int,
        buffs_of(effects, BuffType::Health),
        now,
    )
    &&& stat_buffed(
        old_p.mana.max_mana.buffs@,
        new_p.mana.max_mana.buffs@,
        old_p.mana.max_mana.base_value as int,
        new_p.mana.max_mana.base_value as int,
        new_p.mana.max_mana.value as int,
        old_p.mana.max_mana.value as int,
        buffs_of(effects, BuffType::Mana),
        now,
    )
    &&& stat_buffed(
        old_p.health.regeneration.buffs@,
        new_p.health.regeneration.buffs@,
        old_p.health.regeneration.base_value as int,
        new_p.health.regeneration.base_value as int,
        new_p.health.regeneration.value as int,
        old_p.health.regeneration.value as int,
        buffs_of(effects, BuffType::Regeneration),
        now,
    )
    &&& stat_buffed(
        old_p.movement.movement_speed.buffs@,
        new_p.movement.movement_speed.buffs@,
        old_p.movement.movement_speed.base_value as int,
        new_p.movement.movement_speed.base_value as int,
        new_p.movement.movement_speed.value as int,
        old_p.movement.movement_speed.value as int,
        buffs_of(effects, BuffType::MovementSpeed),
        now,
    )
    &&& (if buffs_of(effects, BuffType::Health).len() > 0 {
        &&& new_p.health.current_health == new_p.health.max_health.value
        &&& new_p.health.target_health == new_p.health.max_health.value
    } else {
        &&& new_p.health.current_health == old_p.health.current_health
        &&& new_p.health.target_health == old_p.health.target_health
    })
    &&& (if buffs_of(effects, BuffType::Mana).len() > 0 {
        new_p.mana.current_mana == new_p.mana.max_mana.value
    } else {
        new_p.mana.current_mana == old_p.mana.current_mana
    })
    &&& new_p.mana.regeneration == old_p.mana.regeneration
    &&& new_p.defence.fire_armour == old_p.defence.fire_armour
    &&& new_p.defence.electricity_armour == old_p.defence.electricity_armour
    &&& new_p.defence.poison_armour == old_p.defence.poison_armour
    &&& new_p.defence.frost_armour == old_p.defence.frost_armour
}

/// A cast ability waiting to be applied: its lane, its effects in order,
/// and whether it has been applied.
#[derive(Debug)]
pub struct SpawnedAbility {
    pub lane: usize,
    pub effects: Vec<AbilityDetail>,
    pub applied: bool,
}

/// Why a cast was refused.
#[derive(Clone, Copy, Debug, PartialEq, Eq)]
pub enum CastError {
    Incapacitated,
    NoSuchSlot,
    NotEquipped,
    NotReady,
}

/// Every ability bound to one of the player's slots is in the catalogue.
pub open spec fn slots_in_catalog(database: &AbilityDatabase, p: &PlayerBundle) -> bool {
    forall|s: int|
        0 <= s < p.actions.actions@.len() ==> match (#[trigger] p.actions.actions@[s]).action {
            Some(id) => database.abilities@.contains_key(id),
            None => true,
        }
}

fn copy_effects(effects: &Vec<AbilityDetail>) -> (r: Vec<AbilityDetail>)
    ensures
        r@ == effects@,
{
    let mut r: Vec<AbilityDetail> = Vec::new();
    let mut i: usize = 0;
    while i < effects.len()
        invariant
            i <= effects.len(),
            r@ == effects@.take(i as int),
        decreases effects.len() - i,
    {
        r.push(effects[i]);
        proof {
            assert(effects@.take(i + 1) == effects@.take(i as int).push(effects@[i as int]));
        }
        i += 1;
    }
    proof {
        assert(effects@.take(effects@.len() as int) == effects@);
    }
    r
}

/// Casts the ability in `slot` of a player who is not down: the slot must
/// exist, hold an ability, and be ready at `now`. On success the slot's next
/// availability moves to `now` plus the cooldown, and a pending ability for
/// the player's lane carries the ability's effects. A refused cast changes
/// nothing.
pub fn spawn_abilities(
    now: i64,
    database: &AbilityDatabase,
    player: &mut PlayerBundle,
    slot: usize,
) -> (r: Result<SpawnedAbility, CastError>)
    requires
        database.wf(),
        slots_in_catalog(database, old(player)),
    ensures
        old(player).incapacitated.is_some() ==> r == Err::<SpawnedAbility, CastError>(
            CastError::Incapacitated,
        ),
        old(player).incapacitated.is_none() && slot >= old(player).actions.actions@.len() ==> r
            == Err::<SpawnedAbility, CastError>(CastError::NoSuchSlot),
        old(player).incapacitated.is_none() && slot < old(player).actions.actions@.len() ==> {
            let a = old(player).actions.actions@[slot as int];
            match a.action {
                None => r == Err::<SpawnedAbility, CastError>(CastError::NotEquipped),
                Some(id) => if a.next_available > now {
                    r == Err::<SpawnedAbility, CastError>(CastError::NotReady)
                } else {
                    match r {
                        Ok(spawned) => {
                            &&& spawned.lane == old(player).player.current_lane
                            &&& spawned.effects@ == database.abilities@[id].effects@
                            &&& !spawned.applied
                            &&& final(player).actions.actions@ == old(player).actions.actions@.update(
                                slot as int,
                                AbilityActionDetails {
                                    action: Some(id),
                                    next_available: saturate(
                                        now + database.abilities@[id].cooldown,
                                    ) as i64,
                                },
                            )
                        },
                        Err(_) => false,
                    }
                },
            }
        },
        r.is_err() ==> *final(player) == *old(player),
        final(player).player == old(player).player,
        final(player).health == old(player).health,
        final(player).mana == old(player).mana,
        final(player).movement == old(player).movement,
        final(player).attack == old(player).attack,
        final(player).defence == old(player).defence,
        final(player).position == old(player).position,
        final(player).incapacitated == old(player).incapacitated,
        final(player).actions.actions@.len() == old(player).actions.actions@.len(),
        slots_in_catalog(database, final(player)),
{
    if player.incapacitated.is_some() {
        return Err(CastError::Incapacitated);
    }
    if slot >= player.actions.actions.len() {
        return Err(CastError::NoSuchSlot);
    }
    let action = player.actions.actions[slot];
    let id = match action.action {
        None => {
            return Err(CastError::NotEquipped);
        },
        Some(id) => id,
    };
    if action.next_available > now {
        return Err(CastError::NotReady);
    }
    let definition = database.get(id);
    let next_available = clamp_to_i64(now as i128 + definition.cooldown as i128);
    player.actions.actions.set(slot, AbilityActionDetails { action: Some(id), next_available });
    Ok(SpawnedAbility { lane: player.player.current_lane, effects: copy_effects(&definition.effects), applied: false })
}

} // verus!
