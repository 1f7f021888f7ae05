//! The per-tick vitals loop: health trails its target and regenerates, mana
//! regenerates, both held within their maximum.
use vstd::prelude::*;
use crate::stats::{Health, Mana, saturate, clamp_to_i64, floor_div};

verus! {

/// How fast displayed health follows its target, in thousandths per second.
pub const HEALTH_LERP_RATE: i64 = 100_000;

/// Below this displayed health (half a unit) an actor counts as down and does
/// not regenerate.
pub const DOWNED_HEALTH: i64 = 500;

pub open spec fn abs(v: int) -> int {
    if v < 0 {
        -v
    } else {
        v
    }
}

/// How far displayed health moves towards its target in `dt` milliseconds: the
/// gap scaled by the elapsed seconds, at most the lerp rate times them.
pub open spec fn lerp_step(current: int, target: int, dt: int) -> int {
    let by_gap = abs(current - target) * dt / 1000;
    let cap = HEALTH_LERP_RATE * dt / 1000;
    if by_gap < cap {
        by_gap
    } else {
        cap
    }
}

/// Displayed health after one step towards the target.
pub open spec fn lerped(current: int, target: int, dt: int) -> int {
    if current == target {
        current
    } else if current > target {
        current - lerp_step(current, target, dt)
    } else {
        current + lerp_step(current, target, dt)
    }
}

/// `v` held to `[0, max]`: above the maximum it is the maximum, below zero it is zero.
pub open spec fn clamp_to_max(v: int, max: int) -> int {
    if v > max {
        max
    } else if v < 0 {
        0
    } else {
        v
    }
}

/// What `per_second * dt` milliseconds adds, in thousandths.
pub open spec fn regen_over(per_second: int, dt: int) -> int {
    per_second * dt / 1000
}

/// `a * b / 1000`, rounded down.
pub(crate) fn mul_per_mille(a: i64, b: i64) -> (r: i128)
    ensures
        r == a * b / 1000,
        -0x4000_0000_0000_0000_0000_0000_0000_0000int <= r
            <= 0x4000_0000_0000_0000_0000_0000_0000_0000int,
{
    let ghost bound = 0x4000_0000_0000_0000_0000_0000_0000_0000int;
    proof {
        assert(-bound <= a * b <= bound) by (nonlinear_arith)
            requires
                -0x8000_0000_0000_0000int <= a <= 0x8000_0000_0000_0000int,
                -0x8000_0000_0000_0000int <= b <= 0x8000_0000_0000_0000int,
                bound == 0x4000_0000_0000_0000_0000_0000_0000_0000int;
        vstd::arithmetic::div_mod::lemma_div_is_ordered(a * b, bound, 1000);
        vstd::arithmetic::div_mod::lemma_div_is_ordered(-bound, a * b, 1000);
        assert(bound / 1000 <= bound);
        assert(-bound / 1000 >= -bound);
    }
    floor_div(a as i128 * b as i128, 1000)
}

fn clamp_to_max_exec(v: i128, max: i64) -> (r: i64)
    ensures
        r == clamp_to_max(v as int, max as int),
{
    if v > max as i128 {
        max
    } else if v < 0 {
        0
    } else {
        v as i64
    }
}

/// One tick of health: the displayed value moves towards the target; then,
/// unless the actor is down, the target regenerates and is held within
/// `[0, max_health.value]`. The displayed value is held there in any case.
pub fn health_regeneration(delta: i64, health: &mut Health)
    requires
        delta >= 0,
    ensures
        final(health).max_health == old(health).max_health,
        final(health).regeneration == old(health).regeneration,
        ({
            let max = old(health).max_health.value as int;
            let moved = saturate(
                lerped(
                    old(health).current_health as int,
                    old(health).target_health as int,
                    delta as int,
                ),
            );
            if moved < DOWNED_HEALTH {
                &&& final(health).current_health == clamp_to_max(moved, max)
                &&& final(health).target_health == old(health).target_health
            } else {
                &&& final(health).current_health == clamp_to_max(moved, max)
                &&& final(health).target_health == clamp_to_max(
                    old(health).target_health + regen_over(
                        old(health).regeneration.value as int,
                        delta as int,
                    ),
                    max,
                )
            }
        }),
        old(health).max_health.value >= 0 ==> 0 <= final(health).current_health
            <= old(health).max_health.value,
{
    let current = health.current_health as i128;
    let target = health.target_health as i128;
    let dt = delta as i128;
    if current != target {
        let gap = if current > target {
            current - target
        } else {
            target - current
        };
        let cap = mul_per_mille(HEALTH_LERP_RATE, delta);
        let step = if gap >= HEALTH_LERP_RATE as i128 {
            proof {
                assert(gap * dt >= HEALTH_LERP_RATE * dt) by (nonlinear_arith)
                    requires gap >= HEALTH_LERP_RATE, dt >= 0;
                assert(gap * dt / 1000 >= HEALTH_LERP_RATE * dt / 1000) by (nonlinear_arith)
                    requires gap * dt >= HEALTH_LERP_RATE * dt;
            }
            cap
        } else {
            proof {
                assert(gap * dt < HEALTH_LERP_RATE * 0x8000_0000_0000_0000int) by (nonlinear_arith)
                    requires 0 < gap < HEALTH_LERP_RATE, 0 <= dt < 0x8000_0000_0000_0000int;
            }
            let by_gap = gap * dt / 1000;
            if by_gap < cap {
                by_gap
            } else {
                cap
            }
        };
        proof {
            assert(abs(current - target) == gap);
        }
        let moved = if current > target {
            current - step
        } else {
            current + step
        };
        health.current_health = clamp_to_i64(moved);
    }
    let max = health.max_health.value;
    if health.current_health < DOWNED_HEALTH {
        health.current_health = clamp_to_max_exec(health.current_health as i128, max);
        return;
    }
    let regen = mul_per_mille(health.regeneration.value, delta);
    health.target_health = clamp_to_max_exec(health.target_health as i128 + regen, max);
    health.current_health = clamp_to_max_exec(health.current_health as i128, max);
}

/// One tick of mana: it regains `regeneration` per second, held within
/// `[0, max_mana.value]`.
pub fn mana_regeneration(delta: i64, mana: &mut Mana)
    requires
        delta >= 0,
    ensures
        final(mana).max_mana == old(mana).max_mana,
        final(mana).regeneration == old(mana).regeneration,
        final(mana).current_mana == clamp_to_max(
            old(mana).current_mana + regen_over(old(mana).regeneration as int, delta as int),
            old(mana).max_mana.value as int,
        ),
{
    let regen = mul_per_mille(mana.regeneration, delta);
    mana.current_mana = clamp_to_max_exec(mana.current_mana as i128 + regen, mana.max_mana.value);
}

/// The share of its maximum that displayed health fills, in thousandths,
/// held to `[0, 1000]`; an empty or negative maximum shows nothing.
pub open spec fn bar_fill(current: int, max: int) -> int {
    if max <= 0 {
        0
    } else {
        let f = current * 1000 / max;
        if f < 0 {
            0
        } else if f > 1000 {
            1000
        } else {
            f
        }
    }
}

/// How full an actor's health bar is drawn, in thousandths.
pub fn health_bar_scale(health: &Health) -> (r: u32)
    ensures
        r == bar_fill(health.current_health as int, health.max_health.value as int),
        r <= 1000,
{
    let max = health.max_health.value;
    if max <= 0 {
        return 0;
    }
    let f = mul_per_mille(health.current_health, 1_000_000);
    let f = floor_div(f, max as i128);
    proof {
        assert(health.current_health * 1_000_000 / 1000 == health.current_health * 1000) by {
            vstd::arithmetic::div_mod::lemma_div_multiples_vanish(
                health.current_health * 1000,
                1000,
            );
            assert(health.current_health * 1_000_000 == 1000 * (health.current_health * 1000)) by (nonlinear_arith);
        }
    }
    if f < 0 {
        0
    } else if f > 1000 {
        1000
    } else {
        f as u32
    }
}

} // verus!
