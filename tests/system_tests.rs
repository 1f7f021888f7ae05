use obelisk::animations::{animate_sprites, AnimationState};
use obelisk::battle::{
    dead_enemy_removal_system, enemy_auto_attack_system, enemy_target_selection_system,
    player_auto_attack_system,
};
use obelisk::components::{
    AttackTarget, CurrentWave, Enemy, EnemyBundle, Incapacitated, Player, PlayerLaneChangeLink,
    PlayerScore,
};
use obelisk::constants::{Position, PLAYER_Y, TARGET_Y};
use obelisk::enemy_factory::{get_enemy_bundle, EnemyType, WOLF_XP};
use obelisk::movement::{enemy_movement, player_movement};
use obelisk::player_factory::get_player;
use obelisk::systems::{
    close_ability_screen, end_of_day_system, game_over_trigger, player_incapacitation_system,
    player_lane_change_interaction, player_revival_system, MyGameScenes,
};

fn wolf(lane: usize, y: i64) -> EnemyBundle {
    get_enemy_bundle(EnemyType::Wolf, lane, Position { x: 0, y })
}

#[test]
fn downed_player_is_incapacitated_then_revived_at_half() {
    let mut players = vec![get_player(0, 0), get_player(1, 1)];
    players[0].health.target_health = 0;
    players[1].health.target_health = 1;
    let downed = player_incapacitation_system(&mut players);
    assert_eq!(downed, vec![0]);
    assert_eq!(players[0].incapacitated, Some(Incapacitated::default()));
    assert!(players[1].incapacitated.is_none());
    assert!(player_incapacitation_system(&mut players).is_empty());
    assert!(player_revival_system(&mut players).is_empty());
    players[0].incapacitated = Some(Incapacitated { end_time: 0, is_revived: true });
    players[0].health.max_health.add_buff(obelisk::stats::Buff { expiry: 0, percentage: 0, amount: 1 });
    assert_eq!(player_revival_system(&mut players), vec![0]);
    assert!(players[0].incapacitated.is_none());
    assert_eq!(players[0].health.target_health, 50_000);
    assert_eq!(players[0].health.current_health, 50_000);
}

#[test]
fn incapacitated_players_do_not_move_attack_or_cast() {
    let mut players = vec![get_player(0, 0)];
    players[0].incapacitated = Some(Incapacitated::default());
    players[0].player.target_lane = 2;
    player_movement(1_000, &mut players);
    assert_eq!(players[0].position.x, -480_000);
    let mut enemies = vec![wolf(0, PLAYER_Y)];
    assert!(player_auto_attack_system(10_000, &mut players, &mut enemies).is_empty());
    assert_eq!(enemies[0].health.target_health, 30_000);
}

#[test]
fn lane_change_within_bounds() {
    let mut players = vec![get_player(0, 0), get_player(1, 2)];
    assert!(!player_lane_change_interaction(&PlayerLaneChangeLink { player_id: 0, delta: -1 }, &mut players));
    assert!(player_lane_change_interaction(&PlayerLaneChangeLink { player_id: 0, delta: 1 }, &mut players));
    assert_eq!(players[0].player.target_lane, 1);
    assert!(!player_lane_change_interaction(&PlayerLaneChangeLink { player_id: 1, delta: 1 }, &mut players));
    assert!(!player_lane_change_interaction(&PlayerLaneChangeLink { player_id: 7, delta: 1 }, &mut players));
}

#[test]
fn player_walks_to_new_lane_and_arrives() {
    let mut players = vec![get_player(1, 0)];
    players[0].player.target_lane = 1;
    player_movement(1_000, &mut players);
    assert!(players[0].player.is_moving);
    assert_eq!(players[0].position.x, -405_000);
    assert_eq!(players[0].player.current_lane, 0);
    players[0].position.x = -181_000;
    player_movement(10, &mut players);
    assert!(!players[0].player.is_moving);
    assert_eq!(players[0].player.current_lane, 1);
}

#[test]
fn enemies_walk_to_their_target() {
    let mut enemies = vec![wolf(1, 0), wolf(1, TARGET_Y + 500)];
    enemy_movement(1_000, &mut enemies);
    assert_eq!(enemies[0].position.y, -60_000);
    assert_eq!(enemies[1].position.y, TARGET_Y);
}

#[test]
fn game_flow_decisions() {
    let mut s = PlayerScore::default();
    assert_eq!(s.obelisk_health, 1000);
    assert_eq!(game_over_trigger(&s), None);
    s.obelisk_health = 0;
    assert_eq!(game_over_trigger(&s), Some(MyGameScenes::GameOver));
    let mut w = CurrentWave { wave_idx: 4, next_wave_time: i64::MAX };
    assert_eq!(close_ability_screen(30_000, &mut w), MyGameScenes::Game);
    assert_eq!(w.next_wave_time, 32_000);
    let mut enemies = vec![wolf(0, 0)];
    assert_eq!(end_of_day_system(&w, 8, &mut enemies), MyGameScenes::Abilities);
    assert!(enemies.is_empty());
    let mut more = vec![wolf(0, 0)];
    let done = CurrentWave { wave_idx: 8, next_wave_time: 0 };
    assert_eq!(end_of_day_system(&done, 8, &mut more), MyGameScenes::GameOver);
    assert_eq!(more.len(), 1);
}

#[test]
fn dead_enemies_are_removed_for_xp() {
    let mut s = PlayerScore::default();
    let mut enemies = vec![wolf(0, 0), wolf(1, 0), wolf(2, 0)];
    enemies[0].health.current_health = 0;
    enemies[2].health.current_health = -5;
    dead_enemy_removal_system(&mut s, &mut enemies);
    assert_eq!(enemies.len(), 1);
    assert_eq!(enemies[0].enemy.lane, 1);
    assert_eq!(s.xp, 2 * WOLF_XP);
    s.xp = usize::MAX - 1;
    let mut last = vec![wolf(0, 0)];
    last[0].health.current_health = 0;
    dead_enemy_removal_system(&mut s, &mut last);
    assert_eq!(s.xp, usize::MAX);
}

#[test]
fn enemies_target_a_lane_player_or_the_obelisk() {
    let players = vec![get_player(0, 0), get_player(1, 0), get_player(2, 2)];
    let mut enemies = vec![wolf(0, 0), wolf(1, 0), wolf(2, 0)];
    enemies[2].attack_target = AttackTarget { entity: Some(9), is_obelisk: false };
    enemy_target_selection_system(&mut enemies, &players);
    assert!(matches!(enemies[0].attack_target.entity, Some(0) | Some(1)));
    assert!(!enemies[0].attack_target.is_obelisk);
    assert_eq!(enemies[1].attack_target, AttackTarget { entity: None, is_obelisk: true });
    assert_eq!(enemies[2].attack_target, AttackTarget { entity: Some(9), is_obelisk: false });
}

#[test]
fn players_strike_the_first_enemy_in_range() {
    let mut players = vec![get_player(0, 1)];
    players[0].attack.crit_chance = 0;
    let mut enemies = vec![wolf(1, PLAYER_Y + 100_000), wolf(1, PLAYER_Y + 10_000), wolf(1, PLAYER_Y)];
    let struck = player_auto_attack_system(500, &mut players, &mut enemies);
    assert_eq!(struck, vec![0]);
    assert_eq!(enemies[0].health.target_health, 30_000);
    let dealt = 30_000 - enemies[1].health.target_health;
    assert!(dealt >= 10_000 && dealt <= 15_000);
    assert_eq!(enemies[2].health.target_health, 30_000);
    assert_eq!(players[0].attack.next_attack, 2_000);
    assert!(player_auto_attack_system(1_999, &mut players, &mut enemies).is_empty());
}

#[test]
fn enemies_hit_players_and_the_obelisk() {
    let mut s = PlayerScore::default();
    let mut players = vec![get_player(3, 0)];
    let mut enemies = vec![wolf(0, TARGET_Y - 40_000), wolf(1, 0), wolf(2, 0)];
    enemies[0].attack_target.entity = Some(3);
    enemies[1].attack_target.is_obelisk = true;
    enemies[2].attack_target.entity = Some(8);
    let warn = enemy_auto_attack_system(100, &mut s, &mut enemies, &mut players);
    assert!(!warn);
    let dealt = 100_000 - players[0].health.target_health;
    // wolf 3..5 against armour 1
    assert!(dealt >= 2_000 && dealt <= 4_000);
    assert_eq!(enemies[0].attack.next_attack, 1_100);
    assert!(s.obelisk_health >= 999 && s.obelisk_health <= 1000);
    assert_eq!(enemies[2].attack_target.entity, None);
    let _ = Enemy::new(0, 1);
    let _ = Player { player_id: 0, current_lane: 0, target_lane: 0, is_moving: false, abilities: vec![] };
}

#[test]
fn animation_cycles_and_one_shot_ends() {
    let mut a = AnimationState::default();
    a.animations = vec![(0, 1), (2, 3)];
    a.is_playing = true;
    assert!(!a.set_animation(2));
    assert!(a.set_animation(1));
    assert_eq!(a.current_idx, 2);
    assert_eq!(a.get_frame_index(), 4);
    assert_eq!(a.incr(), 3);
    assert_eq!(a.incr(), 2);
    a.one_shot = true;
    assert_eq!(animate_sprites(&mut a), (3, false));
    assert_eq!(animate_sprites(&mut a), (2, true));
    a.is_playing = false;
    assert_eq!(a.get_frame_index(), 0);
}

#[test]
fn next_level_offer() {
    let mut p = get_player(0, 0);
    assert_eq!(p.player.get_next_level(), Some(2));
    p.player.abilities.push(0);
    assert_eq!(p.player.get_next_level(), Some(3));
    p.player.abilities.push(2);
    assert_eq!(p.player.get_next_level(), None);
}
