use obelisk::combat::{calc_damage, resolve_combat, resolve_combat_rolled, CombatResult};
use obelisk::components::{BaseAttack, Defence};
use obelisk::random::{QRNG, RNG};
use obelisk::stats::BuffableStatistic;

fn armoured(units: i32) -> Defence {
    let mut d = Defence::default();
    d.base_armour = BuffableStatistic::new(units * 1000);
    d
}

#[test]
fn calc_damage_values() {
    assert_eq!(calc_damage(10, 5), 6);
    assert_eq!(calc_damage(15, 5), 11);
    assert_eq!(calc_damage(12, 0), 12);
    assert_eq!(calc_damage(0, 0), 0);
    assert_eq!(calc_damage(0, 7), 0);
    assert_eq!(calc_damage(1, 1_000_000), 0);
    assert_eq!(calc_damage(u32::MAX, 0), u32::MAX);
}

#[test]
fn calc_damage_is_monotone() {
    for a in 1..60u32 {
        for d in 0..60u32 {
            assert!(calc_damage(a, d) <= calc_damage(a + 1, d));
            assert!(calc_damage(a, d + 1) <= calc_damage(a, d));
            assert!(calc_damage(a, d) <= a);
        }
    }
}

#[test]
fn rolled_combat_doubles_on_crit_and_sets_flags() {
    let mut attack = BaseAttack::with_damage(10, 15);
    attack.fire_damage = 4;
    attack.frost_damage = 2;
    let mut defence = armoured(5);
    defence.frost_armour = 100;
    let r = resolve_combat_rolled(&attack, &defence, true, 10);
    // physical 20*20/25 = 16, fire 4, frost 4/102 = 0
    assert_eq!(
        r,
        CombatResult {
            damage: 20,
            is_crit: true,
            burning: true,
            poisoned: false,
            frozen: false,
            shocked: false,
        }
    );
    let plain = resolve_combat_rolled(&BaseAttack::with_damage(10, 15), &armoured(5), false, 10);
    assert_eq!(plain.damage, 6);
    assert!(!plain.is_crit && !plain.burning && !plain.frozen);
}

#[test]
fn negative_armour_counts_as_none() {
    let mut d = Defence::default();
    d.base_armour = BuffableStatistic::new(-3_000);
    d.poison_armour = -4;
    let mut attack = BaseAttack::with_damage(9, 9);
    attack.poison_damage = 3;
    let r = resolve_combat_rolled(&attack, &d, false, 9);
    assert_eq!(r.damage, 12);
    assert!(r.poisoned);
}

#[test]
fn player_attack_on_armour_five_stays_in_range() {
    let mut attack = BaseAttack::with_damage(10, 15);
    attack.crit_chance = 0;
    let defence = armoured(5);
    let allowed: Vec<i64> = (10..=15).map(|x| calc_damage(x, 5) as i64).collect();
    for _ in 0..300 {
        let r = resolve_combat(&attack, &defence);
        assert!(!r.is_crit);
        assert!(allowed.contains(&r.damage));
        assert!(r.damage >= 6 && r.damage <= 11);
    }
}

#[test]
fn certain_crit_always_doubles() {
    let mut attack = BaseAttack::with_damage(4, 4);
    attack.crit_chance = 1000;
    let r = resolve_combat(&attack, &Defence::default());
    assert!(r.is_crit);
    assert_eq!(r.damage, 8);
}

#[test]
fn rng_extremes() {
    for _ in 0..50 {
        assert!(!RNG::test(0));
        assert!(RNG::test(1000));
        assert_eq!(RNG::i32_between(7, 7), 7);
        assert_eq!(RNG::usize_between(3, 4), 3);
    }
}

#[test]
fn rng_ranges_are_respected_and_vary() {
    let mut seen = std::collections::HashSet::new();
    for _ in 0..400 {
        let v = RNG::i32_between(-3, 3);
        assert!((-3..=3).contains(&v));
        seen.insert(v);
        let u = RNG::usize_between(10, 14);
        assert!((10..14).contains(&u));
    }
    assert!(seen.len() > 1);
    let mut hits = 0;
    for _ in 0..400 {
        if RNG::test(500) {
            hits += 1;
        }
    }
    assert!(hits > 0 && hits < 400);
}

#[test]
fn qrng_chance_grows_with_misses() {
    let mut q = QRNG::new();
    assert_eq!(q.chance(), 100);
    for _ in 0..4 {
        q.record(false);
    }
    assert_eq!(q.chance(), 300);
    q.record(false);
    q.record(false);
    assert_eq!(q.chance(), 400);
    q.record(true);
    assert_eq!(q.unsuccessful, 0);
    assert_eq!(q.chance(), 100);
    q.maximum = 5000;
    q.increment = 1000;
    q.unsuccessful = 3;
    assert_eq!(q.chance(), 1000);
    assert!(q.test());
    assert_eq!(q.unsuccessful, 0);
}
