use obelisk::abilities::{
    AbilityAttackDetail, AbilityDatabase, AbilityDetail, AbilityHealDetail, AbilityPurchaseRequest,
    AbilityReviveDetail, DamageType, FLAME_WALL_ID,
};
use obelisk::components::{EnemyBundle, Incapacitated, PlayerScore};
use obelisk::constants::{Position, TARGET_Y};
use obelisk::effects::{apply_attack, apply_attack_area, execute_abilities, VisualEffect};
use obelisk::enemy_factory::{get_enemy_bundle, EnemyType};
use obelisk::pipeline::{
    ability_purchase_system, purchase_ability, spawn_abilities, CastError, PurchaseOutcome,
    SpawnedAbility,
};
use obelisk::player_factory::get_player;

fn score(xp: usize) -> PlayerScore {
    let mut s = PlayerScore::default();
    s.xp = xp;
    s
}

#[test]
fn catalogue_holds_the_namespaced_ids() {
    let db = AbilityDatabase::new();
    let mut ids: Vec<u16> = db.abilities.keys().copied().collect();
    ids.sort();
    assert_eq!(ids, vec![0, 1, 2, 1000, 1001, 2000, 2001, 3000, 3001]);
    assert_eq!(db.get(0).xp_cost, 50);
    assert_eq!(db.get(1).prerequisites, vec![0]);
    assert_eq!(db.get(2).prerequisites, vec![1]);
    assert!(db.get(2).passive);
    assert_eq!(db.get(1000).slot_number, 1);
    assert_eq!(db.get(2001).cooldown, 20_000);
    assert_eq!(db.get(2000).name, "Heal");
}

#[test]
fn purchase_level_two_buffs_health_and_mana() {
    let db = AbilityDatabase::new();
    let mut s = score(120);
    let mut p = get_player(0, 1);
    let r = purchase_ability(db.get(0), 1_000, &mut s, &mut p);
    assert_eq!(r, PurchaseOutcome::Purchased);
    assert_eq!(s.xp, 70);
    assert_eq!(p.player.abilities, vec![0]);
    assert_eq!(p.health.max_health.value, 150_000);
    assert_eq!(p.health.current_health, 150_000);
    assert_eq!(p.health.target_health, 150_000);
    assert_eq!(p.mana.max_mana.value, 250_000);
    assert_eq!(p.mana.current_mana, 250_000);
}

#[test]
fn purchase_twice_is_rejected() {
    let db = AbilityDatabase::new();
    let mut s = score(1_000);
    let mut p = get_player(0, 1);
    assert_eq!(purchase_ability(db.get(0), 0, &mut s, &mut p), PurchaseOutcome::Purchased);
    let xp = s.xp;
    let max = p.health.max_health.value;
    assert_eq!(purchase_ability(db.get(0), 0, &mut s, &mut p), PurchaseOutcome::AlreadyOwned);
    assert_eq!(s.xp, xp);
    assert_eq!(p.health.max_health.value, max);
    assert_eq!(p.player.abilities, vec![0]);
}

#[test]
fn purchase_rejections_change_nothing() {
    let db = AbilityDatabase::new();
    let mut s = score(100);
    let mut p = get_player(1, 0);
    assert_eq!(purchase_ability(db.get(2), 0, &mut s, &mut p), PurchaseOutcome::TooExpensive);
    assert_eq!(purchase_ability(db.get(1), 0, &mut score(500), &mut p), PurchaseOutcome::MissingPrerequisite);
    assert_eq!(s.xp, 100);
    assert!(p.player.abilities.is_empty());
    assert_eq!(p.health.max_health.value, 100_000);
}

#[test]
fn purchase_active_binds_slot_ready_now() {
    let db = AbilityDatabase::new();
    let mut s = score(300);
    let mut p = get_player(0, 2);
    assert_eq!(purchase_ability(db.get(1001), 0, &mut s, &mut p), PurchaseOutcome::Purchased);
    assert_eq!(s.xp, 100);
    assert_eq!(p.actions.actions[1].action, Some(1001));
    assert_eq!(p.actions.actions[1].next_available, 0);
    assert_eq!(p.actions.actions[0].action, None);
}

#[test]
fn purchase_system_finds_player_by_id() {
    let db = AbilityDatabase::new();
    let mut s = score(400);
    let mut players = vec![get_player(0, 0), get_player(1, 1)];
    let req = AbilityPurchaseRequest { player_id: 1, ability_id: 0 };
    assert_eq!(ability_purchase_system(5, &db, &mut s, &req, &mut players), PurchaseOutcome::Purchased);
    assert_eq!(players[1].player.abilities, vec![0]);
    assert!(players[0].player.abilities.is_empty());
    let nobody = AbilityPurchaseRequest { player_id: 9, ability_id: 1 };
    assert_eq!(ability_purchase_system(5, &db, &mut s, &nobody, &mut players), PurchaseOutcome::NoSuchPlayer);
    assert_eq!(s.xp, 350);
    s.xp = 100;
    let dear = AbilityPurchaseRequest { player_id: 9, ability_id: 2 };
    assert_eq!(ability_purchase_system(5, &db, &mut s, &dear, &mut players), PurchaseOutcome::TooExpensive);
    assert_eq!(s.xp, 100);
}

#[test]
fn cast_checks_slot_binding_and_cooldown() {
    let db = AbilityDatabase::new();
    let mut p = get_player(0, 1);
    assert_eq!(spawn_abilities(0, &db, &mut p, 0).unwrap_err(), CastError::NotEquipped);
    assert_eq!(spawn_abilities(0, &db, &mut p, 5).unwrap_err(), CastError::NoSuchSlot);
    let mut s = score(300);
    purchase_ability(db.get(2000), 0, &mut s, &mut p);
    let cast = spawn_abilities(1_000, &db, &mut p, 0).unwrap();
    assert_eq!(cast.lane, 1);
    assert!(!cast.applied);
    assert_eq!(cast.effects, db.get(2000).effects);
    assert_eq!(p.actions.actions[0].next_available, 16_000);
    assert_eq!(spawn_abilities(15_999, &db, &mut p, 0).unwrap_err(), CastError::NotReady);
    assert!(spawn_abilities(16_000, &db, &mut p, 0).is_ok());
    p.incapacitated = Some(Incapacitated::default());
    assert_eq!(spawn_abilities(99_000, &db, &mut p, 0).unwrap_err(), CastError::Incapacitated);
}

fn enemy_at(lane: usize, y: i64, t: EnemyType) -> EnemyBundle {
    get_enemy_bundle(t, lane, Position { x: 0, y })
}

#[test]
fn single_attack_hits_first_living_enemy_in_melee() {
    let mut enemies = vec![
        enemy_at(1, TARGET_Y + 100_000, EnemyType::Wolf),
        enemy_at(0, TARGET_Y, EnemyType::Wolf),
        enemy_at(1, TARGET_Y + 10_000, EnemyType::Wolf),
        enemy_at(1, TARGET_Y, EnemyType::Wolf),
    ];
    let d = AbilityAttackDetail { damage_type: DamageType::Pure, min_damage: 7, max_damage: 7 };
    apply_attack(1, &d, &mut enemies);
    assert_eq!(enemies[0].health.target_health, 30_000);
    assert_eq!(enemies[1].health.target_health, 30_000);
    assert_eq!(enemies[2].health.target_health, 23_000);
    assert_eq!(enemies[3].health.target_health, 30_000);
}

#[test]
fn area_attack_hits_all_in_radius() {
    let mut enemies = vec![
        enemy_at(2, TARGET_Y + 40_000, EnemyType::Bear),
        enemy_at(2, TARGET_Y - 20_000, EnemyType::Wolf),
        enemy_at(2, TARGET_Y + 60_000, EnemyType::Wolf),
    ];
    enemies[1].health.current_health = 0;
    let d = AbilityAttackDetail { damage_type: DamageType::Fire, min_damage: 10, max_damage: 10 };
    apply_attack_area(2, &d, 50_000, &mut enemies);
    // bear armour 1: 100 / 11 = 9
    assert_eq!(enemies[0].health.target_health, 41_000);
    assert_eq!(enemies[1].health.target_health, 30_000);
    assert_eq!(enemies[2].health.target_health, 30_000);
}

#[test]
fn execute_heals_revives_and_animates_once() {
    let mut players = vec![get_player(0, 0), get_player(1, 0), get_player(2, 1)];
    players[0].health.target_health = 20_000;
    players[1].incapacitated = Some(Incapacitated::default());
    players[2].health.target_health = 20_000;
    let mut enemies: Vec<EnemyBundle> = Vec::new();
    let mut ability = SpawnedAbility {
        lane: 0,
        effects: vec![
            AbilityDetail::Heal(AbilityHealDetail { burst_heal: 50_000 }),
            AbilityDetail::Revive(AbilityReviveDetail { revive_time: 0 }),
            AbilityDetail::SpawnAnimation(FLAME_WALL_ID, 0, 9),
        ],
        applied: false,
    };
    let visuals = execute_abilities(&mut ability, &mut players, &mut enemies);
    assert!(ability.applied);
    assert_eq!(
        visuals,
        vec![VisualEffect {
            atlas_id: FLAME_WALL_ID,
            frame_start: 0,
            frame_end: 9,
            position: Position { x: -480_000, y: TARGET_Y },
        }]
    );
    assert_eq!(players[0].health.target_health, 70_000);
    assert_eq!(players[1].health.target_health, 100_000);
    assert_eq!(players[1].incapacitated, Some(Incapacitated { end_time: 0, is_revived: true }));
    assert_eq!(players[2].health.target_health, 20_000);
    let again = execute_abilities(&mut ability, &mut players, &mut enemies);
    assert!(again.is_empty());
    assert_eq!(players[0].health.target_health, 70_000);
}

#[test]
fn catalogue_effects_are_rollable_and_complete() {
    let db = AbilityDatabase::new();
    for id in [0u16, 1, 2, 1000, 1001, 2000, 2001, 3000, 3001] {
        let d = db.get(id);
        assert_eq!(d.id, id);
        assert!(obelisk::effects::effects_are_rollable(&d.effects));
        assert_eq!(d.passive, id < 1000);
    }
    assert_eq!(
        db.get(1001).effects,
        vec![AbilityDetail::Attack(AbilityAttackDetail {
            damage_type: DamageType::Fire,
            min_damage: 30,
            max_damage: 60,
        })]
    );
    let bad = vec![AbilityDetail::Attack(AbilityAttackDetail {
        damage_type: DamageType::Pure,
        min_damage: 5,
        max_damage: 4,
    })];
    assert!(!obelisk::effects::effects_are_rollable(&bad));
}
