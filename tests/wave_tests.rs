use obelisk::components::{CurrentWave, EnemyBundle};
use obelisk::constants::SPAWN_Y;
use obelisk::enemy_factory::{EnemyType, BEAR_XP, WOLF_XP};
use obelisk::waves::{
    spawn_wave, wave_data, wave_spawned_event_system, wave_spawning_system, Wave, WaveData, WaveTick,
};

#[test]
fn table_has_eight_waves() {
    let t = wave_data();
    assert_eq!(t.len(), 8);
    assert_eq!(t[1].bears, Wave([0, 1, 0]));
    assert_eq!(t[2].post_wave_delay, 8_000);
}

#[test]
fn scheduler_runs_the_table_once() {
    let table = wave_data();
    let mut enemies: Vec<EnemyBundle> = Vec::new();
    let mut w = CurrentWave::default();
    let mut spawns = Vec::new();
    let mut day_ends = 0;
    let mut victories = 0;
    let mut now: i64 = 0;
    for _ in 0..2_000 {
        now += 50;
        let t = wave_spawning_system(now, 1000, &mut w, &table, &mut enemies);
        if let Some(i) = t.spawned_wave {
            spawns.push(i);
        }
        match t.end_of_day {
            Some(true) => victories += 1,
            Some(false) => day_ends += 1,
            None => {}
        }
    }
    assert_eq!(spawns, (0..8).collect::<Vec<usize>>());
    assert_eq!(w.wave_idx, 8);
    assert_eq!(day_ends, 1);
    // 24 wolves and 16 bears over the eight waves
    assert_eq!(enemies.len(), 40);
    assert_eq!(victories, 1);
    assert_eq!(w.next_wave_time, i64::MAX);
}

#[test]
fn scheduler_waits_and_pauses() {
    let table = wave_data();
    let mut enemies: Vec<EnemyBundle> = Vec::new();
    let mut w = CurrentWave::default();
    let none = WaveTick { end_of_day: None, spawned_wave: None };
    assert_eq!(wave_spawning_system(999, 1000, &mut w, &table, &mut enemies), none);
    assert_eq!(wave_spawning_system(1_000, 5, &mut w, &table, &mut enemies), none);
    assert_eq!(
        wave_spawning_system(1_000, 1000, &mut w, &table, &mut enemies),
        WaveTick { end_of_day: None, spawned_wave: Some(0) }
    );
    assert_eq!(w, CurrentWave { wave_idx: 1, next_wave_time: 11_000 });
    let lanes: Vec<usize> = enemies.iter().map(|e| e.enemy.lane).collect();
    assert_eq!(lanes, vec![0, 1, 2]);
    assert!(enemies.iter().all(|e| e.enemy.xp_reward == WOLF_XP));
}

#[test]
fn fourth_wave_ends_the_day_first() {
    let table = wave_data();
    let mut enemies: Vec<EnemyBundle> = Vec::new();
    let mut w = CurrentWave { wave_idx: 4, next_wave_time: 0 };
    assert_eq!(
        wave_spawning_system(10, 1000, &mut w, &table, &mut enemies),
        WaveTick { end_of_day: Some(false), spawned_wave: Some(4) }
    );
}

#[test]
fn empty_table_is_an_immediate_victory() {
    let table: Vec<WaveData> = Vec::new();
    let mut enemies: Vec<EnemyBundle> = Vec::new();
    let mut w = CurrentWave::default();
    assert_eq!(
        wave_spawning_system(2_000, 1000, &mut w, &table, &mut enemies),
        WaveTick { end_of_day: Some(true), spawned_wave: None }
    );
    assert_eq!(
        wave_spawning_system(3_000, 1000, &mut w, &table, &mut enemies),
        WaveTick { end_of_day: None, spawned_wave: None }
    );
    assert!(enemies.is_empty());
}

#[test]
fn spawn_wave_spawns_in_order_near_spawn_points() {
    let wave = WaveData { wolves: Wave([1, 0, 2]), bears: Wave([0, 1, -1]), post_wave_delay: 0 };
    let mut enemies: Vec<EnemyBundle> = Vec::new();
    spawn_wave(&wave, &mut enemies);
    let lanes: Vec<usize> = enemies.iter().map(|e| e.enemy.lane).collect();
    assert_eq!(lanes, vec![0, 2, 2, 1]);
    let rewards: Vec<usize> = enemies.iter().map(|e| e.enemy.xp_reward).collect();
    assert_eq!(rewards, vec![WOLF_XP, WOLF_XP, WOLF_XP, BEAR_XP]);
    for e in &enemies {
        assert!(e.position.y <= SPAWN_Y && e.position.y >= SPAWN_Y - 30_000);
    }
    assert_eq!(enemies[3].health.max_health.value, 50_000);
    assert_eq!(enemies[3].defence.base_armour.value, 1_000);
    let _ = EnemyType::Bear;
}

#[test]
fn spawned_wave_sets_time_of_day() {
    assert_eq!(wave_spawned_event_system(0), (0, true));
    assert_eq!(wave_spawned_event_system(3), (3, false));
    assert_eq!(wave_spawned_event_system(4), (0, true));
    assert_eq!(Wave::default(), Wave([0, 0, 0]));
}
