//! Movement of players between lanes and of enemies down theirs.
use vstd::prelude::*;
use crate::components::{EnemyBundle, PlayerBundle};
use crate::constants::{ARRIVAL_DISTANCE, ENEMY_SPEED, LANE_COUNT, PLAYER_OFFSET_X, lane_x};
use crate::stats::saturate;
use crate::vitals::{abs, mul_per_mille};

verus! {

/// `from` moved towards `to` by at most `max_step` (taken as a distance).
pub open spec fn step_toward(from: int, to: int, max_step: int) -> int {
    let d = to - from;
    let m = abs(max_step);
    if abs(d) <= m {
        to
    } else if d < 0 {
        from - m
    } else {
        from + m
    }
}

fn step_toward_exec(from: i64, to: i64, max_step: i128) -> (r: i64)
    requires
        -0x4000_0000_0000_0000_0000_0000_0000_0000int <= max_step
            <= 0x4000_0000_0000_0000_0000_0000_0000_0000int,
    ensures
        r == saturate(step_toward(from as int, to as int, max_step as int)),
{
    let d = to as i128 - from as i128;
    let m = if max_step < 0 {
        -max_step
    } else {
        max_step
    };
    let ad = if d < 0 {
        -d
    } else {
        d
    };
    if ad <= m {
        to
    } else if d < 0 {
        crate::stats::clamp_to_i64(from as i128 - m)
    } else {
        crate::stats::clamp_to_i64(from as i128 + m)
    }
}

/// Where player `id` stands in `lane`: the lane's x, shifted per player.
pub open spec fn player_spot_x(lane: int, id: int) -> int {
    lane_x(lane) + id * PLAYER_OFFSET_X - PLAYER_OFFSET_X
}

/// Moves each player who is not down towards their spot in their target
/// lane, at most their movement speed times the elapsed time. A player
/// within arrival distance arrives: their current lane becomes the target
/// lane and they stop moving.
pub fn player_movement(delta: i64, players: &mut Vec<PlayerBundle>)
    requires
        forall|j: int| 0 <= j < old(players)@.len() ==> (#[trigger] old(players)@[j]).player.target_lane < LANE_COUNT,
    ensures
        final(players)@.len() == old(players)@.len(),
        forall|j: int|
            0 <= j < old(players)@.len() ==> {
                let (o, n) = (#[trigger] old(players)@[j], final(players)@[j]);
                let spot = player_spot_x(o.player.target_lane as int, o.player.player_id as int);
                if o.incapacitated.is_some() {
                    n == o
                } else if abs(spot - o.position.x) < ARRIVAL_DISTANCE {
                    &&& n.player.current_lane == o.player.target_lane
                    &&& !n.player.is_moving
                    &&& n.position == o.position
                    &&& n.player.target_lane == o.player.target_lane
                    &&& n.player.player_id == o.player.player_id
                    &&& n.player.abilities == o.player.abilities
                } else {
                    &&& n.player.is_moving
                    &&& n.position.x == saturate(
                        step_toward(
                            o.position.x as int,
                            spot,
                            o.movement.movement_speed.value * delta / 1000,
                        ),
                    )
                    &&& n.position.y == o.position.y
                    &&& n.player.current_lane == o.player.current_lane
                    &&& n.player.target_lane == o.player.target_lane
                    &&& n.player.player_id == o.player.player_id
                    &&& n.player.abilities == o.player.abilities
                }
            },
        forall|j: int|
            0 <= j < old(players)@.len() ==> {
                let (o, n) = (#[trigger] old(players)@[j], final(players)@[j]);
                &&& n.health == o.health
                &&& n.mana == o.mana
                &&& n.movement == o.movement
                &&& n.attack == o.attack
                &&& n.defence == o.defence
                &&& n.actions == o.actions
                &&& n.incapacitated == o.incapacitated
            },
{
    let n = players.len();
    let mut i: usize = 0;
    while i < n
        invariant
            n == old(players)@.len(),
            players@.len() == n,
            i <= n,
            forall|j: int| 0 <= j < n ==> (#[trigger] old(players)@[j]).player.target_lane < LANE_COUNT,
            forall|j: int|
                0 <= j < i ==> {
                    let (o, m) = (#[trigger] old(players)@[j], players@[j]);
                    let spot = player_spot_x(o.player.target_lane as int, o.player.player_id as int);
                    if o.incapacitated.is_some() {
                        m == o
                    } else if abs(spot - o.position.x) < ARRIVAL_DISTANCE {
                        &&& m.player.current_lane == o.player.target_lane
                        &&& !m.player.is_moving
                        &&& m.position == o.position
                        &&& m.player.target_lane == o.player.target_lane
                        &&& m.player.player_id == o.player.player_id
                        &&& m.player.abilities == o.player.abilities
                    } else {
                        &&& m.player.is_moving
                        &&& m.position.x == saturate(
                            step_toward(
                                o.position.x as int,
                                spot,
                                o.movement.movement_speed.value * delta / 1000,
                            ),
                        )
                        &&& m.position.y == o.position.y
                        &&& m.player.current_lane == o.player.current_lane
                        &&& m.player.target_lane == o.player.target_lane
                        &&& m.player.player_id == o.player.player_id
                        &&& m.player.abilities == o.player.abilities
                    }
                },
            forall|j: int|
                0 <= j < i ==> {
                    let (o, m) = (#[trigger] old(players)@[j], players@[j]);
                    &&& m.health == o.health
                    &&& m.mana == o.mana
                    &&& m.movement == o.movement
                    &&& m.attack == o.attack
                    &&& m.defence == o.defence
                    &&& m.actions == o.actions
                    &&& m.incapacitated == o.incapacitated
                },
            forall|j: int| i <= j < n ==> #[trigger] players@[j] == old(players)@[j],
        decreases n - i,
    {
        if players[i].incapacitated.is_none() {
            let lane_spot = crate::constants::target_location(players[i].player.target_lane);
            let spot = lane_spot.x + players[i].player.player_id as i64 * PLAYER_OFFSET_X
                - PLAYER_OFFSET_X;
            let gap = spot as i128 - players[i].position.x as i128;
            let dist = if gap < 0 {
                -gap
            } else {
                gap
            };
            if dist < ARRIVAL_DISTANCE as i128 {
                players[i].player.current_lane = players[i].player.target_lane;
                players[i].player.is_moving = false;
            } else {
                let max_step = mul_per_mille(players[i].movement.movement_speed.value, delta);
                players[i].player.is_moving = true;
                let x = step_toward_exec(players[i].position.x, spot, max_step);
                players[i].position.x = x;
            }
        }
        i += 1;
    }
}

/// Moves each enemy towards its target point's y, at most the enemy speed
/// times the elapsed time.
pub fn enemy_movement(delta: i64, enemies: &mut Vec<EnemyBundle>)
    requires
        0 <= delta,
    ensures
        final(enemies)@.len() == old(enemies)@.len(),
        forall|j: int|
            0 <= j < old(enemies)@.len() ==> {
                let (o, n) = (#[trigger] old(enemies)@[j], final(enemies)@[j]);
                &&& n.position.y == saturate(
                    step_toward(o.position.y as int, o.enemy.target.y as int, ENEMY_SPEED * delta),
                )
                &&& n.position.x == o.position.x
                &&& n.enemy == o.enemy
                &&& n.health == o.health
                &&& n.attack == o.attack
                &&& n.defence == o.defence
                &&& n.attack_target == o.attack_target
            },
{
    let n = enemies.len();
    let mut i: usize = 0;
    while i < n
        invariant
            n == old(enemies)@.len(),
            enemies@.len() == n,
            i <= n,
            0 <= delta,
            forall|j: int|
                0 <= j < i ==> {
                    let (o, m) = (#[trigger] old(enemies)@[j], enemies@[j]);
                    &&& m.position.y == saturate(
                        step_toward(o.position.y as int, o.enemy.target.y as int, ENEMY_SPEED * delta),
                    )
                    &&& m.position.x == o.position.x
                    &&& m.enemy == o.enemy
                    &&& m.health == o.health
                    &&& m.attack == o.attack
                    &&& m.defence == o.defence
                    &&& m.attack_target == o.attack_target
                },
            forall|j: int| i <= j < n ==> #[trigger] enemies@[j] == old(enemies)@[j],
        decreases n - i,
    {
        proof {
            assert(0 <= ENEMY_SPEED * delta <= 60 * 0x8000_0000_0000_0000int) by (nonlinear_arith)
                requires 0 <= delta < 0x8000_0000_0000_0000int, ENEMY_SPEED == 60;
        }
        let max_step = ENEMY_SPEED as i128 * delta as i128;
        let y = step_toward_exec(enemies[i].position.y, enemies[i].enemy.target.y, max_step);
        enemies[i].position.y = y;
        i += 1;
    }
}

} // verus!
