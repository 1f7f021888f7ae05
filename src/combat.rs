//! Combat resolution: the mitigation curve, one attack against one defence,
//! and the obelisk's share of it.
use vstd::prelude::*;
use crate::components::{BaseAttack, Defence};
use crate::random::{RNG, PER_MILLE};

verus! {

/// The outcome of one attack.
#[derive(Clone, Copy, Debug, PartialEq, Eq)]
pub struct CombatResult {
    pub damage: i64,
    pub is_crit: bool,
    pub burning: bool,
    pub poisoned: bool,
    pub frozen: bool,
    pub shocked: bool,
}

/// Damage of `attack` against `defence`: `attack² / (attack + defence)`,
/// rounded down, and no damage at all from no attack.
pub open spec fn damage_curve(attack: int, defence: int) -> int {
    if attack == 0 {
        0
    } else {
        attack * attack / (attack + defence)
    }
}

/// The mitigation curve. A zero attack does nothing and divides by nothing.
pub fn calc_damage(attack: u32, defence: u32) -> (r: u32)
    ensures
        r == damage_curve(attack as int, defence as int),
        r <= attack,
{
    if attack == 0 {
        return 0;
    }
    let a = attack as u64;
    let d = defence as u64;
    proof {
        assert(a * a <= 0xFFFF_FFFF * 0xFFFF_FFFFint) by (nonlinear_arith)
            requires a <= 0xFFFF_FFFF;
        lemma_curve_at_most_attack(a as int, d as int);
    }
    (a * a / (a + d)) as u32
}

pub proof fn lemma_curve_at_most_attack(a: int, d: int)
    requires
        a > 0,
        d >= 0,
    ensures
        0 <= a * a / (a + d) <= a,
{
    assert(a * a <= a * (a + d)) by (nonlinear_arith)
        requires a > 0, d >= 0;
    vstd::arithmetic::div_mod::lemma_div_is_ordered(a * a, a * (a + d), a + d);
    vstd::arithmetic::div_mod::lemma_div_by_multiple(a, a + d);
    assert(a * (a + d) == (a + d) * a) by (nonlinear_arith);
    vstd::arithmetic::div_mod::lemma_div_pos_is_pos(a * a, a + d);
}

/// The curve never decreases as the attack grows and never increases as the
/// defence grows; with no defence the whole attack lands.
pub proof fn lemma_damage_curve_monotone(a1: int, a2: int, d1: int, d2: int)
    requires
        0 < a1 <= a2,
        0 <= d1 <= d2,
    ensures
        damage_curve(a1, d1) <= damage_curve(a2, d1),
        damage_curve(a1, d2) <= damage_curve(a1, d1),
        damage_curve(a1, 0) == a1,
{
    // growing attack: a1²/(a1+d) <= a2²/(a2+d) since a1²(a2+d) <= a2²(a1+d)
    let n1 = a1 * a1;
    let n2 = a2 * a2;
    let m1 = a1 + d1;
    let m2 = a2 + d1;
    assert(n1 * m2 <= n2 * m1) by (nonlinear_arith)
        requires 0 < a1 <= a2, 0 <= d1, n1 == a1 * a1, n2 == a2 * a2, m1 == a1 + d1, m2 == a2 + d1;
    lemma_fraction_ordered(n1, m1, n2, m2);
    // growing defence: a1²/(a1+d2) <= a1²/(a1+d1)
    vstd::arithmetic::div_mod::lemma_div_is_ordered_by_denominator(n1, a1 + d1, a1 + d2);
    vstd::arithmetic::div_mod::lemma_div_by_multiple(a1, a1);
    assert(n1 == a1 * a1);
}

/// `n1/m1 <= n2/m2` (rounded down) when `n1·m2 <= n2·m1`.
proof fn lemma_fraction_ordered(n1: int, m1: int, n2: int, m2: int)
    requires
        n1 >= 0,
        n2 >= 0,
        m1 > 0,
        m2 > 0,
        n1 * m2 <= n2 * m1,
    ensures
        n1 / m1 <= n2 / m2,
{
    let q1 = n1 / m1;
    let q2 = n2 / m2;
    vstd::arithmetic::div_mod::lemma_fundamental_div_mod(n1, m1);
    vstd::arithmetic::div_mod::lemma_fundamental_div_mod(n2, m2);
    vstd::arithmetic::div_mod::lemma_mod_pos_bound(n1, m1);
    vstd::arithmetic::div_mod::lemma_mod_pos_bound(n2, m2);
    let r1 = n1 % m1;
    let r2 = n2 % m2;
    if q1 > q2 {
        assert(q1 * m1 * m2 <= n1 * m2) by (nonlinear_arith)
            requires n1 == m1 * q1 + r1, r1 >= 0, m2 > 0;
        assert(n2 * m1 < (q2 + 1) * m2 * m1) by (nonlinear_arith)
            requires n2 == m2 * q2 + r2, r2 < m2, m1 > 0;
        assert((q2 + 1) * m2 * m1 <= q1 * m1 * m2) by (nonlinear_arith)
            requires q1 >= q2 + 1, m1 > 0, m2 > 0;
        assert(false);
    }
}

/// Armour below zero counts as none; above `i32::MAX` points it stops there.
pub open spec fn armour_rating(value: int) -> int {
    if value < 0 {
        0
    } else if value / 1000 > i32::MAX {
        i32::MAX as int
    } else {
        value / 1000
    }
}

/// Damage of one elemental channel: none unless the attacker has some.
pub open spec fn channel_damage(attack: int, armour: int) -> int {
    if attack > 0 {
        damage_curve(attack, if armour < 0 {
            0
        } else {
            armour
        })
    } else {
        0
    }
}

/// The result of `attack` on `defence` when the crit roll came out `is_crit`
/// and the damage roll `roll`.
pub open spec fn combat_outcome(attack: &BaseAttack, defence: &Defence, is_crit: bool, roll: int) -> CombatResult {
    let base = if is_crit {
        2 * roll
    } else {
        roll
    };
    let physical = damage_curve(base, armour_rating(defence.base_armour.value as int));
    let fire = channel_damage(attack.fire_damage as int, defence.fire_armour as int);
    let shock = channel_damage(attack.electricity_damage as int, defence.electricity_armour as int);
    let poison = channel_damage(attack.poison_damage as int, defence.poison_armour as int);
    let frost = channel_damage(attack.frost_damage as int, defence.frost_armour as int);
    CombatResult {
        damage: (physical + fire + shock + poison + frost) as i64,
        is_crit,
        burning: fire > 0,
        shocked: shock > 0,
        poisoned: poison > 0,
        frozen: frost > 0,
    }
}

/// An attack that can be rolled: damages not negative and in order, a crit
/// chance no more than a certainty.
pub open spec fn attack_rollable(attack: &BaseAttack) -> bool {
    &&& 0 <= attack.min_attack_damage <= attack.max_attack_damage
    &&& attack.crit_chance <= PER_MILLE
}

/// `result` is what some roll of `attack` on `defence` gives: a damage roll
/// within the attack's range, and a crit only where the chance allows one.
pub open spec fn possible_outcome(attack: &BaseAttack, defence: &Defence, result: CombatResult) -> bool {
    exists|is_crit: bool, roll: int|
        {
            &&& attack.min_attack_damage <= roll <= attack.max_attack_damage
            &&& (attack.crit_chance == 0 ==> !is_crit)
            &&& (attack.crit_chance == PER_MILLE ==> is_crit)
            &&& result == combat_outcome(attack, defence, is_crit, roll)
        }
}

fn armour_rating_exec(value: i64) -> (r: u32)
    ensures
        r == armour_rating(value as int),
{
    if value < 0 {
        0
    } else if value / 1000 > i32::MAX as i64 {
        i32::MAX as u32
    } else {
        (value / 1000) as u32
    }
}

fn channel_damage_exec(attack: i32, armour: i32) -> (r: u32)
    ensures
        r == channel_damage(attack as int, armour as int),
        r <= i32::MAX,
{
    if attack > 0 {
        let a: u32 = if armour < 0 {
            0
        } else {
            armour as u32
        };
        calc_damage(attack as u32, a)
    } else {
        0
    }
}

/// Resolves an attack for given rolls: the physical damage from the roll
/// (doubled on a crit) against the base armour, plus each elemental channel
/// the attacker has, with its status flag set when that channel did damage.
pub fn resolve_combat_rolled(attack: &BaseAttack, defence: &Defence, is_crit: bool, roll: i32) -> (r:
    CombatResult)
    requires
        roll >= 0,
    ensures
        r == combat_outcome(attack, defence, is_crit, roll as int),
        0 <= r.damage,
{
    let base: u32 = if is_crit {
        2 * roll as u32
    } else {
        roll as u32
    };
    let physical = calc_damage(base, armour_rating_exec(defence.base_armour.value));
    let fire = channel_damage_exec(attack.fire_damage, defence.fire_armour);
    let shock = channel_damage_exec(attack.electricity_damage, defence.electricity_armour);
    let poison = channel_damage_exec(attack.poison_damage, defence.poison_armour);
    let frost = channel_damage_exec(attack.frost_damage, defence.frost_armour);
    CombatResult {
        damage: physical as i64 + fire as i64 + shock as i64 + poison as i64 + frost as i64,
        is_crit,
        burning: fire > 0,
        shocked: shock > 0,
        poisoned: poison > 0,
        frozen: frost > 0,
    }
}

/// Resolves an attack: rolls a crit with the attacker's chance and the damage
/// uniformly in `[min_attack_damage, max_attack_damage]`.
pub fn resolve_combat(attack: &BaseAttack, defence: &Defence) -> (r: CombatResult)
    requires
        attack_rollable(attack),
    ensures
        possible_outcome(attack, defence, r),
        0 <= r.damage,
{
    let is_crit = RNG::test(attack.crit_chance);
    let roll = RNG::i32_between(attack.min_attack_damage, attack.max_attack_damage);
    let r = resolve_combat_rolled(attack, defence, is_crit, roll);
    assert(attack.min_attack_damage <= roll as int <= attack.max_attack_damage && r
        == combat_outcome(attack, defence, is_crit, roll as int));
    r
}

/// An attack with no crit chance and no elemental damage deals exactly the
/// curve of some roll in its range against the defender's armour: no less
/// than the curve of its minimum, no more than that of its maximum, never
/// below zero and never above the roll.
pub proof fn lemma_plain_attack_damage(attack: &BaseAttack, defence: &Defence, r: CombatResult)
    requires
        attack.crit_chance == 0,
        attack.fire_damage <= 0,
        attack.electricity_damage <= 0,
        attack.poison_damage <= 0,
        attack.frost_damage <= 0,
        0 < attack.min_attack_damage <= attack.max_attack_damage,
        possible_outcome(attack, defence, r),
    ensures
        !r.is_crit,
        exists|x: int|
            attack.min_attack_damage <= x <= attack.max_attack_damage && r.damage == damage_curve(
                x,
                armour_rating(defence.base_armour.value as int),
            ) && 0 <= r.damage <= x,
        damage_curve(
            attack.min_attack_damage as int,
            armour_rating(defence.base_armour.value as int),
        ) <= r.damage <= damage_curve(
            attack.max_attack_damage as int,
            armour_rating(defence.base_armour.value as int),
        ),
{
    let d = armour_rating(defence.base_armour.value as int);
    let (is_crit, roll) = choose|is_crit: bool, roll: int|
        {
            &&& attack.min_attack_damage <= roll <= attack.max_attack_damage
            &&& (attack.crit_chance == 0 ==> !is_crit)
            &&& (attack.crit_chance == PER_MILLE ==> is_crit)
            &&& r == combat_outcome(attack, defence, is_crit, roll)
        };
    lemma_curve_at_most_attack(roll, d);
    assert(r.damage == damage_curve(roll, d));
    lemma_damage_curve_monotone(attack.min_attack_damage as int, roll, d, d);
    lemma_damage_curve_monotone(roll, attack.max_attack_damage as int, d, d);
}

} // verus!
