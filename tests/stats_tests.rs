use obelisk::stats::{refresh_stats, Buff, BuffableStatistic, Health, Mana, Movement, Stats};
use obelisk::vitals::{health_bar_scale, health_regeneration, mana_regeneration};

fn buff(expiry: i64, percentage: i32, amount: i32) -> Buff {
    Buff { expiry, percentage, amount }
}

#[test]
fn new_then_set_base_then_buff_round_trip() {
    let mut s = BuffableStatistic::new(10_000);
    assert_eq!(s.value, 10_000);
    s.set_base(20_000);
    assert_eq!(s.value, 20_000);
    assert!(s.buffs.is_empty());
    s.add_buff(buff(0, 500, 2_000));
    // floor(20 * 1.5) + 2 = 32
    assert_eq!(s.value, 32_000);
}

#[test]
fn floor_applies_to_scaled_base_only() {
    let mut s = BuffableStatistic::new(10_000);
    s.add_buff(buff(0, 500, 2_000));
    assert_eq!(s.value, 17_000);
    let mut t = BuffableStatistic::new(10_500);
    t.add_buff(buff(0, 0, 250));
    // floor(10.5) + 0.25
    assert_eq!(t.value, 10_250);
}

#[test]
fn negative_scaled_base_rounds_down() {
    let mut s = BuffableStatistic::new(-1_500);
    s.add_buff(buff(0, 0, 0));
    assert_eq!(s.value, -2_000);
}

#[test]
fn permanent_buffs_survive_every_update() {
    let mut s = BuffableStatistic::new(10_000);
    s.add_buff(buff(0, 100, 1_000));
    s.add_buff(buff(0, 0, 3_000));
    let before = s.value;
    for now in [0i64, 1, 1_000, 1_000_000, i64::MAX] {
        assert!(!s.update(now));
        assert_eq!(s.buffs.len(), 2);
        assert_eq!(s.value, before);
    }
}

#[test]
fn timed_buffs_expire_strictly_before_now() {
    let mut s = BuffableStatistic::new(10_000);
    s.add_buff(buff(5_000, 0, 1_000));
    s.add_buff(buff(8_000, 0, 2_000));
    s.add_buff(buff(12_000, 0, 4_000));
    assert_eq!(s.value, 17_000);
    assert!(!s.update(5_000));
    assert_eq!(s.buffs.len(), 3);
    assert!(s.update(8_001));
    assert_eq!(s.buffs, vec![buff(12_000, 0, 4_000)]);
    assert_eq!(s.value, 14_000);
    assert!(!s.update(12_000));
    assert!(s.update(12_001));
    assert!(s.buffs.is_empty());
    assert_eq!(s.value, 10_000);
}

#[test]
fn update_without_buffs_reports_no_change() {
    let mut s = BuffableStatistic::new(1_500);
    assert!(!s.update(100));
    assert_eq!(s.value, 1_500);
}

#[test]
fn apply_buff_sweeps_at_now() {
    let mut s = BuffableStatistic::new(10_000);
    s.apply_buff(buff(100, 0, 5_000), 200);
    assert!(s.buffs.is_empty());
    assert_eq!(s.value, 10_000);
    s.apply_buff(buff(300, 0, 5_000), 200);
    assert_eq!(s.value, 15_000);
}

#[test]
fn stats_update_flags_changes() {
    let mut stats = Stats {
        strength: BuffableStatistic::new(10_000),
        agility: BuffableStatistic::new(7_000),
        intelligence: BuffableStatistic::new(20_000),
        is_changed: false,
    };
    stats.agility.add_buff(buff(50, 0, 1_000));
    stats.update(10);
    assert!(!stats.is_changed);
    stats.update(100);
    assert!(stats.is_changed);
    assert!(stats.agility.buffs.is_empty());
}

#[test]
fn refresh_stats_derives_ten_fold() {
    let mut stats = Stats {
        strength: BuffableStatistic::new(12_000),
        agility: BuffableStatistic::new(8_000),
        intelligence: BuffableStatistic::new(5_000),
        is_changed: false,
    };
    stats.strength.add_buff(buff(10, 0, 1_000));
    let mut movement = Movement { movement_speed: BuffableStatistic::new(75_000) };
    let mut health = Health::new(100_000, 0);
    let mut mana = Mana::new(200_000);
    refresh_stats(50, &mut stats, &mut movement, &mut health, &mut mana);
    assert!(!stats.is_changed);
    assert_eq!(movement.movement_speed.base_value, 80_000);
    assert_eq!(movement.movement_speed.value, 80_000);
    assert_eq!(health.max_health.base_value, 120_000);
    assert_eq!(health.max_health.value, 120_000);
    assert_eq!(mana.max_mana.value, 50_000);
    // nothing expired: bases stay
    let mut movement2 = Movement { movement_speed: BuffableStatistic::new(75_000) };
    refresh_stats(60, &mut stats, &mut movement2, &mut health, &mut mana);
    assert_eq!(movement2.movement_speed.value, 75_000);
}

#[test]
fn health_and_mana_constructors() {
    let h = Health::new(30_000, 100);
    assert_eq!(h.current_health, 30_000);
    assert_eq!(h.target_health, 30_000);
    assert_eq!(h.max_health.value, 30_000);
    assert_eq!(h.regeneration.value, 100);
    let m = Mana::new(200_000);
    assert_eq!(m.current_mana, 200_000);
    assert_eq!(m.regeneration, 2_000);
}

#[test]
fn health_lerps_towards_target_at_bounded_rate() {
    let mut h = Health::new(100_000, 0);
    h.target_health = 40_000;
    // gap 60 units over 0.1 s: by gap 6 units, cap 10 units
    health_regeneration(100, &mut h);
    assert_eq!(h.current_health, 94_000);
    assert_eq!(h.target_health, 40_000);
    let mut g = Health::new(100_000, 0);
    g.target_health = 0;
    // gap 100 units over 0.5 s: by gap 50, cap 50
    health_regeneration(500, &mut g);
    assert_eq!(g.current_health, 50_000);
    let mut k = Health::new(100_000, 0);
    k.target_health = 0;
    // gap 100 units over 0.2 s: by gap 20, cap 20
    health_regeneration(200, &mut k);
    assert_eq!(k.current_health, 80_000);
}

#[test]
fn health_regenerates_and_clamps_to_max() {
    let mut h = Health::new(100_000, 2_000);
    h.target_health = 99_500;
    h.current_health = 99_500;
    health_regeneration(1_000, &mut h);
    assert_eq!(h.target_health, 100_000);
    assert_eq!(h.current_health, 99_500);
    let mut low = Health::new(100_000, 1_000);
    low.current_health = 50_000;
    low.target_health = 50_000;
    health_regeneration(500, &mut low);
    assert_eq!(low.target_health, 50_500);
}

#[test]
fn downed_actor_does_not_regenerate() {
    let mut h = Health::new(100_000, 5_000);
    h.current_health = 400;
    h.target_health = 400;
    health_regeneration(1_000, &mut h);
    assert_eq!(h.target_health, 400);
    assert_eq!(h.current_health, 400);
}

#[test]
fn mana_regenerates_within_max() {
    let mut m = Mana::new(200_000);
    m.current_mana = 10_000;
    mana_regeneration(500, &mut m);
    assert_eq!(m.current_mana, 11_000);
    m.current_mana = 199_999;
    mana_regeneration(1_000, &mut m);
    assert_eq!(m.current_mana, 200_000);
}

#[test]
fn health_bar_is_clamped() {
    let mut h = Health::new(100_000, 0);
    h.current_health = 25_000;
    assert_eq!(health_bar_scale(&h), 250);
    h.current_health = -5_000;
    assert_eq!(health_bar_scale(&h), 0);
    h.current_health = 150_000;
    assert_eq!(health_bar_scale(&h), 1000);
    let empty = Health::new(0, 0);
    assert_eq!(health_bar_scale(&empty), 0);
}

#[test]
fn downed_health_is_held_at_zero() {
    let mut h = Health::new(100_000, 0);
    h.current_health = 100;
    h.target_health = -50_000;
    health_regeneration(1_000, &mut h);
    assert_eq!(h.current_health, 0);
    assert_eq!(h.target_health, -50_000);
}
