//! Per-tick rules on players and the flow between scenes: incapacitation and
//! revival, lane changes, the end of a day and the end of the game.
use vstd::prelude::*;
use crate::components::{CurrentWave, EnemyBundle, Incapacitated, PlayerBundle, PlayerLaneChangeLink, PlayerScore};
use crate::constants::{MAX_LANE, MIN_LANE};
use crate::pipeline::first_with_id;
use crate::stats::{clamp_to_i64, floor_div};

verus! {

/// The scenes of the game.
#[derive(Clone, Copy, Debug, PartialEq, Eq)]
pub enum MyGameScenes {
    Loading,
    Menu,
    Game,
    GameOver,
    Abilities,
    Splash1,
    Splash2,
    Splash3,
}

/// A player who is not down takes part in movement, attacks and casts.
pub open spec fn can_act(p: PlayerBundle) -> bool {
    p.incapacitated.is_none()
}

/// A player after the incapacitation step: one not yet down whose target
/// health is at or below zero goes down; the rest are as they were.
pub open spec fn incapacitated_after(p: PlayerBundle) -> Option<Incapacitated> {
    if p.incapacitated.is_none() && p.health.target_health <= 0 {
        Some(Incapacitated { end_time: 0, is_revived: false })
    } else {
        p.incapacitated
    }
}

/// The ids of the players the incapacitation step downs, in order.
pub open spec fn downed_ids(players: Seq<PlayerBundle>) -> Seq<u8>
    decreases players.len(),
{
    if players.len() == 0 {
        seq![]
    } else {
        let rest = downed_ids(players.drop_last());
        let p = players.last();
        if p.incapacitated.is_none() && p.health.target_health <= 0 {
            rest.push(p.player.player_id)
        } else {
            rest
        }
    }
}

/// The ids of the players the revival step brings back, in order.
pub open spec fn revived_ids(players: Seq<PlayerBundle>) -> Seq<u8>
    decreases players.len(),
{
    if players.len() == 0 {
        seq![]
    } else {
        let rest = revived_ids(players.drop_last());
        let p = players.last();
        if p.incapacitated.is_some() && p.incapacitated.unwrap().is_revived {
            rest.push(p.player.player_id)
        } else {
            rest
        }
    }
}

/// Downs every player whose target health has reached zero. Returns the ids
/// of the players downed now, in order, for their animation to switch.
pub fn player_incapacitation_system(players: &mut Vec<PlayerBundle>) -> (r: Vec<u8>)
    ensures
        r@ == downed_ids(old(players)@),
        final(players)@.len() == old(players)@.len(),
        forall|j: int|
            0 <= j < old(players)@.len() ==> {
                let (o, n) = (#[trigger] old(players)@[j], final(players)@[j]);
                &&& n.incapacitated == incapacitated_after(o)
                &&& n.health == o.health
                &&& n.player == o.player
                &&& n.mana == o.mana
                &&& n.movement == o.movement
                &&& n.attack == o.attack
                &&& n.defence == o.defence
                &&& n.actions == o.actions
                &&& n.position == o.position
            },
{
    let mut downed: Vec<u8> = Vec::new();
    let n = players.len();
    let mut i: usize = 0;
    while i < n
        invariant
            n == old(players)@.len(),
            players@.len() == n,
            i <= n,
            downed@ == downed_ids(old(players)@.take(i as int)),
            forall|j: int|
                0 <= j < i ==> {
                    let (o, m) = (#[trigger] old(players)@[j], players@[j]);
                    &&& m.incapacitated == incapacitated_after(o)
                    &&& m.health == o.health
                    &&& m.player == o.player
                    &&& m.mana == o.mana
                    &&& m.movement == o.movement
                    &&& m.attack == o.attack
                    &&& m.defence == o.defence
                    &&& m.actions == o.actions
                    &&& m.position == o.position
                },
            forall|j: int| i <= j < n ==> #[trigger] players@[j] == old(players)@[j],
        decreases n - i,
    {
        proof {
            assert(old(players)@.take(i + 1).drop_last() == old(players)@.take(i as int));
            assert(old(players)@.take(i + 1).last() == old(players)@[i as int]);
        }
        if players[i].incapacitated.is_none() && players[i].health.target_health <= 0 {
            players[i].incapacitated = Some(Incapacitated::default());
            downed.push(players[i].player.player_id);
        }
        i += 1;
    }
    proof {
        assert(old(players)@.take(n as int) == old(players)@);
    }
    downed
}

/// Half of a maximum health, rounded down.
pub open spec fn revived_health(max: int) -> int {
    max / 2
}

/// Brings back every downed player who was marked revived: their health,
/// target and displayed, becomes half their maximum and they are no longer
/// down. Returns the ids of those revived, in order.
pub fn player_revival_system(players: &mut Vec<PlayerBundle>) -> (r: Vec<u8>)
    ensures
        r@ == revived_ids(old(players)@),
        final(players)@.len() == old(players)@.len(),
        forall|j: int|
            0 <= j < old(players)@.len() ==> {
                let (o, n) = (#[trigger] old(players)@[j], final(players)@[j]);
                if o.incapacitated.is_some() && o.incapacitated.unwrap().is_revived {
                    &&& n.incapacitated.is_none()
                    &&& n.health.target_health == revived_health(o.health.max_health.value as int)
                    &&& n.health.current_health == n.health.target_health
                    &&& n.health.max_health == o.health.max_health
                    &&& n.health.regeneration == o.health.regeneration
                    &&& n.player == o.player
                    &&& n.mana == o.mana
                    &&& n.movement == o.movement
                    &&& n.attack == o.attack
                    &&& n.defence == o.defence
                    &&& n.actions == o.actions
                    &&& n.position == o.position
                } else {
                    n == o
                }
            },
{
    let mut revived: Vec<u8> = Vec::new();
    let n = players.len();
    let mut i: usize = 0;
    while i < n
        invariant
            n == old(players)@.len(),
            players@.len() == n,
            i <= n,
            revived@ == revived_ids(old(players)@.take(i as int)),
            forall|j: int|
                0 <= j < i ==> {
                    let (o, m) = (#[trigger] old(players)@[j], players@[j]);
                    if o.incapacitated.is_some() && o.incapacitated.unwrap().is_revived {
                        &&& m.incapacitated.is_none()
                        &&& m.health.target_health == revived_health(
                            o.health.max_health.value as int,
                        )
                        &&& m.health.current_health == m.health.target_health
                        &&& m.health.max_health == o.health.max_health
                        &&& m.health.regeneration == o.health.regeneration
                        &&& m.player == o.player
                        &&& m.mana == o.mana
                        &&& m.movement == o.movement
                        &&& m.attack == o.attack
                        &&& m.defence == o.defence
                        &&& m.actions == o.actions
                        &&& m.position == o.position
                    } else {
                        m == o
                    }
                },
            forall|j: int| i <= j < n ==> #[trigger] players@[j] == old(players)@[j],
        decreases n - i,
    {
        proof {
            assert(old(players)@.take(i + 1).drop_last() == old(players)@.take(i as int));
            assert(old(players)@.take(i + 1).last() == old(players)@[i as int]);
        }
        let is_revived = match players[i].incapacitated {
            Some(inc) => inc.is_revived,
            None => false,
        };
        if is_revived {
            let half = floor_div(players[i].health.max_health.value as i128, 2);
            let half = clamp_to_i64(half);
            players[i].health.target_health = half;
            players[i].health.current_health = half;
            players[i].incapacitated = None;
            revived.push(players[i].player.player_id);
        }
        i += 1;
    }
    proof {
        assert(old(players)@.take(n as int) == old(players)@);
    }
    revived
}

/// A player whose target health is driven to zero or below is down after the
/// next incapacitation step, and so takes no part in movement, attacks or
/// casts; once marked revived, the revival step brings their health to
/// exactly half their maximum and they may act again.
pub proof fn lemma_incapacitation(p: PlayerBundle)
    requires
        p.incapacitated.is_none(),
        p.health.target_health <= 0,
    ensures
        incapacitated_after(p).is_some(),
        !can_act(PlayerBundle { incapacitated: incapacitated_after(p), ..p }),
        can_act(PlayerBundle { incapacitated: None, ..p }),
        revived_health(p.health.max_health.value as int) * 2 <= p.health.max_health.value
            <= revived_health(p.health.max_health.value as int) * 2 + 1,
{
}

/// Where a lane change request leaves a player's target lane: moved by the
/// delta when that stays within the lanes, else unchanged.
pub open spec fn lane_after_change(target_lane: int, delta: int) -> Option<int> {
    let lane = target_lane + delta;
    if MIN_LANE <= lane <= MAX_LANE {
        Some(lane)
    } else {
        None
    }
}

/// Applies a lane change request to the first player with its id. Returns
/// whether the lane changed; a request beyond the lanes, or for nobody, is
/// ignored.
pub fn player_lane_change_interaction(
    link: &PlayerLaneChangeLink,
    players: &mut Vec<PlayerBundle>,
) -> (r: bool)
    ensures
        final(players)@.len() == old(players)@.len(),
        !r ==> final(players)@ == old(players)@,
        r <==> exists|i: int|
            first_with_id(old(players)@, link.player_id, i) && lane_after_change(
                old(players)@[i].player.target_lane as int,
                link.delta as int,
            ).is_some(),
        forall|i: int|
            #![trigger first_with_id(old(players)@, link.player_id, i)]
            first_with_id(old(players)@, link.player_id, i) && lane_after_change(
                old(players)@[i].player.target_lane as int,
                link.delta as int,
            ).is_some() ==> {
                &&& final(players)@[i].player.target_lane == lane_after_change(
                    old(players)@[i].player.target_lane as int,
                    link.delta as int,
                ).unwrap()
                &&& final(players)@[i].player.current_lane == old(players)@[i].player.current_lane
                &&& final(players)@[i].player.player_id == old(players)@[i].player.player_id
                &&& final(players)@[i].player.is_moving == old(players)@[i].player.is_moving
                &&& final(players)@[i].player.abilities == old(players)@[i].player.abilities
                &&& final(players)@[i].health == old(players)@[i].health
                &&& final(players)@[i].mana == old(players)@[i].mana
                &&& final(players)@[i].movement == old(players)@[i].movement
                &&& final(players)@[i].attack == old(players)@[i].attack
                &&& final(players)@[i].defence == old(players)@[i].defence
                &&& final(players)@[i].actions == old(players)@[i].actions
                &&& final(players)@[i].position == old(players)@[i].position
                &&& final(players)@[i].incapacitated == old(players)@[i].incapacitated
                &&& forall|j: int|
                    0 <= j < old(players)@.len() && j != i ==> #[trigger] final(players)@[j]
                        == old(players)@[j]
            },
{
    match crate::pipeline::find_player(players, link.player_id) {
        None => false,
        Some(i) => {
            let lane = players[i].player.target_lane as i128 + link.delta as i128;
            if lane < MIN_LANE as i128 || lane > MAX_LANE as i128 {
                return false;
            }
            players[i].player.target_lane = lane as usize;
            assert(first_with_id(old(players)@, link.player_id, i as int));
            true
        },
    }
}

/// The scene a game in play moves to once the obelisk has fallen.
pub fn game_over_trigger(score: &PlayerScore) -> (r: Option<MyGameScenes>)
    ensures
        r == (if score.obelisk_health == 0 {
            Some(MyGameScenes::GameOver)
        } else {
            None
        }),
{
    if score.obelisk_health == 0 {
        Some(MyGameScenes::GameOver)
    } else {
        None
    }
}

/// Game time between closing the ability screen and the next wave.
pub const RESUME_DELAY: i64 = 2000;

/// Back to the game from the ability screen: the next wave falls due a
/// little later.
pub fn close_ability_screen(now: i64, current_wave: &mut CurrentWave) -> (r: MyGameScenes)
    ensures
        r == MyGameScenes::Game,
        final(current_wave).wave_idx == old(current_wave).wave_idx,
        final(current_wave).next_wave_time == crate::stats::saturate(now + RESUME_DELAY),
{
    current_wave.next_wave_time = clamp_to_i64(now as i128 + RESUME_DELAY as i128);
    MyGameScenes::Game
}

/// At the end of a day: after the last wave, the victory screen; otherwise
/// the remaining enemies leave and the ability screen opens.
pub fn end_of_day_system(
    waves: &CurrentWave,
    wave_count: usize,
    enemies: &mut Vec<EnemyBundle>,
) -> (r: MyGameScenes)
    ensures
        waves.wave_idx >= wave_count ==> r == MyGameScenes::GameOver && final(enemies)@ == old(
            enemies,
        )@,
        waves.wave_idx < wave_count ==> r == MyGameScenes::Abilities && final(enemies)@.len() == 0,
{
    if waves.wave_idx >= wave_count {
        MyGameScenes::GameOver
    } else {
        enemies.clear();
        MyGameScenes::Abilities
    }
}

} // verus!
