use arena_core::config::GameConfig;
use arena_core::position::Position;
use arena_core::enemy::{Enemy, EnemyType};
use arena_core::projectile::Projectile;
use arena_core::score::ScoreEntry;
use arena_core::world::{GameState, PendingLevelUp, UpgradeError};
use arena_core::upgrades::UpgradeType;
use arena_core::messages::{apply_client_message, ClientMessage, ServerMessage};

fn default_world() -> GameState {
    GameState::new(GameConfig::default())
}

#[test]
fn test_default_config() {
    let c = GameConfig::default();
    assert_eq!(c.tick_rate, 20);
    assert_eq!(c.safe_zone_radius, 100_000);
    assert_eq!(c.ring_radius, 200_000);
    assert_eq!(c.max_rings, 10);
    assert_eq!(c.score_min_ring, 10);
    assert_eq!(c.max_scoreboard_entries, 100);
}

#[test]
fn test_add_player_baseline() {
    let mut w = default_world();
    let p = w.add_player_at(1_000_000);
    assert_eq!(p.id, 0);
    assert_eq!(p.position, Position::new(0, 0));
    assert_eq!(p.health, 10_000);
    assert_eq!(p.max_health, 10_000);
    assert_eq!(p.level, 1);
    assert_eq!(p.current_xp, 0);
    assert_eq!(p.xp_to_next_level, 100);
    assert_eq!(p.max_ring_reached, 1);
    assert_eq!(w.players.len(), 1);
    let q = w.add_player_at(1_000_000);
    assert_eq!(q.id, 1);
    assert_eq!(w.players.len(), 2);
}

#[test]
fn test_move_player_updates_position_and_ring() {
    let mut w = default_world();
    let p = w.add_player_at(0);
    // base speed is 120 units/second; one second moves 120 units
    w.move_player(p.id, Position::new(700_000, 0), 1_000);
    assert_eq!(w.players[0].position.x, 120_000);
    assert_eq!(w.players[0].position.y, 0);
    // deepest ring reached is monotone
    for _ in 0..10 {
        w.move_player(p.id, Position::new(700_000, 0), 1_000);
    }
    assert_eq!(w.players[0].position.x, 700_000);
    assert_eq!(w.players[0].max_ring_reached, 3);
    w.move_player(p.id, Position::new(0, 0), 1_000);
    assert_eq!(w.players[0].max_ring_reached, 3); // never regresses
}

#[test]
fn test_move_player_unknown_id_is_noop() {
    let mut w = default_world();
    let p = w.add_player_at(0);
    w.move_player(777, Position::new(500_000, 0), 1_000);
    assert_eq!(w.players.len(), 1);
    assert_eq!(w.players[0].id, p.id);
    assert_eq!(w.players[0].position, Position::new(0, 0));
}

#[test]
fn test_active_rings_single_player() {
    let mut w = default_world();
    let p = w.add_player_at(0);
    // player at the center: ring 1, so rings {1, 2} are active
    assert_eq!(w.get_active_rings(), vec![1, 2]);
    // move to ring 3: rings {3, 4}
    for _ in 0..10 {
        w.move_player(p.id, Position::new(700_000, 0), 1_000);
    }
    assert_eq!(w.get_active_rings(), vec![3, 4]);
}

#[test]
fn test_active_rings_clamped_at_max() {
    let mut w = default_world();
    w.add_player_at(0);
    // place the player in the outermost ring by hand
    w.players[0].position = Position::new(999_000_000, 0);
    let rings = w.get_active_rings();
    assert_eq!(rings, vec![10]);
    for r in rings {
        assert!(1 <= r && r <= 10);
    }
}

#[test]
fn test_spawn_enemies_one_per_active_ring() {
    let mut w = default_world();
    w.add_player_at(0);
    // default spawn rate 0.5/s: a wave comes every 2000 ms
    w.game_time = 2_000;
    w.spawn_enemies(50);
    assert_eq!(w.enemies.len(), 2); // rings {1, 2}
    assert_eq!(w.last_spawn_time, 2_000);
    let rings: Vec<u32> = w.enemies.iter().map(|e| e.spawn_ring).collect();
    assert!(rings.contains(&1));
    assert!(rings.contains(&2));
    for e in &w.enemies {
        assert!(e.spawn_ring >= 1 && e.spawn_ring <= 10);
        assert_eq!(e.health, e.max_health);
        // position lies inside the ring's spawn annulus
        let d = e.position.distance_from_center();
        let inner = (e.spawn_ring as i64 - 1) * 200_000 + 100_000;
        let outer = e.spawn_ring as i64 * 200_000 + 100_000;
        assert!(inner <= d && d < outer);
    }
    // before the interval elapses again, spawning is a no-op
    w.game_time = 3_000;
    w.spawn_enemies(50);
    assert_eq!(w.enemies.len(), 2);
}

#[test]
fn test_update_enemies_chase_nearest_player() {
    let mut w = default_world();
    let p = w.add_player_at(0);
    w.players[0].position = Position::new(300_000, 0);
    let e = Enemy::new(500, EnemyType::Goblin, Position::new(400_000, 0), 1);
    w.enemies.push(e);
    w.update_enemies(1_000);
    let e = &w.enemies[0];
    assert_eq!(e.target_player_id, Some(p.id));
    // a ring-1 goblin moves at 4 units/s: it closes 4 units in one second
    assert_eq!(e.position.x, 396_000);
    assert_eq!(e.position.y, 0);
}

#[test]
fn test_update_enemies_no_living_player() {
    let mut w = default_world();
    w.add_player_at(0);
    w.players[0].health = 0;
    let e = Enemy::new(500, EnemyType::Goblin, Position::new(400_000, 0), 2);
    w.enemies.push(e);
    w.update_enemies(1_000);
    assert_eq!(w.enemies[0].position.x, 400_000);
    assert_eq!(w.enemies[0].target_player_id, None);
}

#[test]
fn test_scoreboard_sorted_and_bounded() {
    let mut config = GameConfig::default();
    config.max_scoreboard_entries = 3;
    let mut w = GameState::new(config);
    let entry = |id: u64, ring: u32, secs: u64, kills: u32| ScoreEntry {
        player_id: id,
        max_ring_reached: ring,
        survival_time_seconds: secs,
        enemies_defeated: kills,
        timestamp: 0,
    };
    w.add_score(entry(1, 2, 10, 5));
    w.add_score(entry(2, 5, 1, 0));
    w.add_score(entry(3, 1, 100, 2));
    w.add_score(entry(4, 3, 7, 9));
    // sorted descending by composite score, truncated to 3
    assert_eq!(w.scores.len(), 3);
    let ids: Vec<u64> = w.scores.iter().map(|s| s.player_id).collect();
    assert_eq!(ids, vec![2, 4, 1]);
    for pair in w.scores.windows(2) {
        assert!(pair[0].total_score() >= pair[1].total_score());
    }
    // a lower-scoring entry that would exceed the cap is dropped
    w.add_score(entry(5, 1, 0, 0));
    let ids: Vec<u64> = w.scores.iter().map(|s| s.player_id).collect();
    assert_eq!(ids, vec![2, 4, 1]);
}

#[test]
fn test_total_score_formula() {
    let e = ScoreEntry {
        player_id: 9,
        max_ring_reached: 7,
        survival_time_seconds: 123,
        enemies_defeated: 45,
        timestamp: 0,
    };
    assert_eq!(e.total_score(), 7 * 10_000 + 123 * 10 + 45);
}

#[test]
fn test_remove_player_records_qualifying_score() {
    let mut config = GameConfig::default();
    config.score_min_ring = 3;
    let mut w = GameState::new(config);
    let p = w.add_player_at(10_000);
    // walk out to ring 3 and stay there
    for _ in 0..10 {
        w.move_player(p.id, Position::new(700_000, 0), 1_000);
    }
    assert_eq!(w.players[0].max_ring_reached, 3);
    let removed = w.remove_player_at(p.id, 15_000);
    assert!(removed.is_some());
    assert_eq!(w.players.len(), 0);
    assert_eq!(w.scores.len(), 1);
    let s = &w.scores[0];
    assert_eq!(s.player_id, p.id);
    assert_eq!(s.max_ring_reached, 3);
    assert_eq!(s.survival_time_seconds, 5); // (15000 - 10000) ms
    assert_eq!(s.timestamp, 15_000);
}

#[test]
fn test_remove_player_below_min_ring_no_score() {
    let mut w = default_world(); // score_min_ring = 10
    let p = w.add_player_at(0);
    let removed = w.remove_player_at(p.id, 60_000);
    assert!(removed.is_some());
    assert_eq!(w.scores.len(), 0);
}

#[test]
fn test_remove_player_unknown_is_none() {
    let mut w = default_world();
    w.add_player_at(0);
    assert!(w.remove_player_at(42, 0).is_none());
    assert_eq!(w.players.len(), 1);
}

#[test]
fn test_get_top_scores_takes_prefix() {
    let mut w = default_world();
    for i in 0..5u64 {
        w.add_score(ScoreEntry {
            player_id: i,
            max_ring_reached: 10 - i as u32,
            survival_time_seconds: 0,
            enemies_defeated: 0,
            timestamp: 0,
        });
    }
    let top = w.get_top_scores(3);
    assert_eq!(top.len(), 3);
    assert_eq!(top[0].player_id, 0);
    assert_eq!(top[2].player_id, 2);
    assert_eq!(w.get_top_scores(50).len(), 5);
}

#[test]
fn test_apply_upgrade_unknown_player() {
    let mut w = default_world();
    let r = w.apply_upgrade(99, UpgradeType::IncreaseDamage);
    assert_eq!(r, Err(UpgradeError::PlayerNotFound));
}

#[test]
fn test_apply_upgrade_without_pending_offer() {
    let mut w = default_world();
    let p = w.add_player_at(0);
    let r = w.apply_upgrade(p.id, UpgradeType::IncreaseDamage);
    assert_eq!(r, Err(UpgradeError::NoPendingLevelUp));
    assert_eq!(w.players[0].damage, 1_000); // unchanged
}

#[test]
fn test_apply_upgrade_recomputes_stats() {
    let mut w = default_world();
    let p = w.add_player_at(0);
    w.pending_level_ups.push(PendingLevelUp {
        player_id: p.id,
        choices: vec![UpgradeType::IncreaseDamage, UpgradeType::Armor, UpgradeType::Magnet],
    });
    let r = w.apply_upgrade(p.id, UpgradeType::IncreaseDamage);
    assert_eq!(r, Ok(()));
    assert_eq!(w.players[0].damage, 1_200); // 10.00 * 1.2
    assert_eq!(w.players[0].upgrades.damage_level, 1);
    assert_eq!(w.pending_level_ups.len(), 0); // the offer is resolved

    // a max-health upgrade heals by the exact delta
    w.players[0].health = 5_000;
    w.pending_level_ups.push(PendingLevelUp {
        player_id: p.id,
        choices: vec![UpgradeType::IncreaseMaxHealth, UpgradeType::Luck, UpgradeType::Magnet],
    });
    let r = w.apply_upgrade(p.id, UpgradeType::IncreaseMaxHealth);
    assert_eq!(r, Ok(()));
    assert_eq!(w.players[0].max_health, 12_500); // +25%
    assert_eq!(w.players[0].health, 7_500); // healed by 2_500
}

#[test]
fn test_projectile_hit_at_collision_radius_boundary() {
    let mut w = default_world();
    let p = w.add_player_at(0);
    // a motionless projectile (zero direction) exactly 20 units from an enemy
    let proj = Projectile::new(100, p.id, Position::new(300_000, 0), Position::new(0, 0), 300_000, 500, 3_000);
    w.projectiles.push(proj);
    let enemy = Enemy::new(101, EnemyType::Goblin, Position::new(320_000, 0), 1);
    let full_health = enemy.health;
    w.enemies.push(enemy);
    w.update_projectiles(0);
    // the boundary is inclusive: the hit lands and consumes the projectile
    assert_eq!(w.enemies[0].health, full_health - 500);
    assert_eq!(w.projectiles.len(), 0);
}

#[test]
fn test_projectile_miss_outside_collision_radius() {
    let mut w = default_world();
    let p = w.add_player_at(0);
    let proj = Projectile::new(100, p.id, Position::new(300_000, 0), Position::new(0, 0), 300_000, 500, 3_000);
    w.projectiles.push(proj);
    let enemy = Enemy::new(101, EnemyType::Goblin, Position::new(320_001, 0), 1);
    let full_health = enemy.health;
    w.enemies.push(enemy);
    w.update_projectiles(0);
    assert_eq!(w.enemies[0].health, full_health);
    assert_eq!(w.projectiles.len(), 1);
}

#[test]
fn test_projectile_kill_credits_owner_and_levels_up() {
    let mut w = default_world();
    let p = w.add_player_at(0);
    // a ring-2 goblin is worth 100 XP: exactly one level
    let enemy = Enemy::new(101, EnemyType::Goblin, Position::new(310_000, 0), 2);
    assert_eq!(enemy.xp_reward, 100);
    w.enemies.push(enemy);
    // enough damage to kill outright
    let proj = Projectile::new(
        100, p.id, Position::new(300_000, 0), Position::new(0, 0), 300_000, 1_000_000, 3_000,
    );
    w.projectiles.push(proj);
    w.update_projectiles(0);
    assert_eq!(w.players[0].enemies_defeated, 1);
    assert_eq!(w.players[0].level, 2);
    assert_eq!(w.players[0].current_xp, 0);
    // a pending level-up offer with distinct choices awaits the player
    assert_eq!(w.pending_level_ups.len(), 1);
    assert_eq!(w.pending_level_ups[0].player_id, p.id);
    let c = &w.pending_level_ups[0].choices;
    assert_eq!(c.len(), 3);
    assert!(c[0] != c[1] && c[0] != c[2] && c[1] != c[2]);
    // dead enemies are cleaned up by the combat pass
    w.process_combat();
    assert_eq!(w.enemies.len(), 0);
}

#[test]
fn test_expired_projectiles_are_removed() {
    let mut w = default_world();
    let p = w.add_player_at(0);
    let proj = Projectile::new(100, p.id, Position::new(300_000, 0), Position::new(1_000, 0), 300_000, 500, 1_000);
    w.projectiles.push(proj);
    w.update_projectiles(999);
    assert_eq!(w.projectiles.len(), 1);
    assert_eq!(w.projectiles[0].lifetime, 1);
    w.update_projectiles(1);
    assert_eq!(w.projectiles.len(), 0);
}

#[test]
fn test_projectile_moves_by_velocity() {
    let mut w = default_world();
    let p = w.add_player_at(0);
    // aimed straight along x at 300 units/second
    let proj = Projectile::new(
        100, p.id, Position::new(200_000, 0), Position::new(50_000, 0), 300_000, 500, 3_000,
    );
    assert_eq!(proj.velocity.x, 300_000);
    assert_eq!(proj.velocity.y, 0);
    w.projectiles.push(proj);
    w.update_projectiles(50); // one 50 ms tick
    assert_eq!(w.projectiles[0].position.x, 215_000);
}

#[test]
fn test_combat_fires_at_nearest_enemy_in_range() {
    let mut w = default_world();
    let p = w.add_player_at(0);
    // outside the safe zone, two enemies: one nearer
    w.players[0].position = Position::new(300_000, 0);
    w.enemies.push(Enemy::new(50, EnemyType::Goblin, Position::new(500_000, 0), 2));
    w.enemies.push(Enemy::new(51, EnemyType::Wolf, Position::new(400_000, 0), 1));
    w.game_time = 5_000;
    w.process_combat();
    assert_eq!(w.projectiles.len(), 1);
    let proj = &w.projectiles[0];
    assert_eq!(proj.owner_id, p.id);
    assert_eq!(proj.damage, w.players[0].damage);
    // aimed at the nearer enemy: straight along +x
    assert_eq!(proj.velocity.x, 300_000);
    assert_eq!(proj.velocity.y, 0);
    // the cooldown was reset
    assert_eq!(w.players[0].last_attack_time, 5_000);
}

#[test]
fn test_combat_no_fire_from_safe_zone() {
    let mut w = default_world();
    w.add_player_at(0); // at the center, inside the safe zone
    w.enemies.push(Enemy::new(50, EnemyType::Goblin, Position::new(150_000, 0), 1));
    w.game_time = 5_000;
    w.process_combat();
    assert_eq!(w.projectiles.len(), 0);
}

#[test]
fn test_combat_enemy_melee_hits_target() {
    let mut w = default_world();
    let p = w.add_player_at(0);
    w.players[0].position = Position::new(300_000, 0);
    let mut e = Enemy::new(50, EnemyType::Goblin, Position::new(340_000, 0), 1);
    e.target_player_id = Some(p.id);
    let dmg = e.damage;
    w.enemies.push(e);
    w.game_time = 5_000;
    w.process_combat();
    assert_eq!(w.players[0].health, 10_000 - dmg);
    assert_eq!(w.enemies[0].last_attack_time, 5_000);
}

#[test]
fn test_combat_melee_out_of_range_misses() {
    let mut w = default_world();
    let p = w.add_player_at(0);
    w.players[0].position = Position::new(300_000, 0);
    let mut e = Enemy::new(50, EnemyType::Goblin, Position::new(360_000, 0), 1);
    e.target_player_id = Some(p.id);
    w.enemies.push(e);
    w.game_time = 5_000;
    w.process_combat();
    assert_eq!(w.players[0].health, 10_000);
}

#[test]
fn test_safe_zone_player_takes_no_damage_end_to_end() {
    let mut w = default_world();
    let p = w.add_player_at(0);
    // enemies path straight to the player at the center
    w.enemies.push(Enemy::new(50, EnemyType::Wolf, Position::new(150_000, 0), 1));
    w.enemies.push(Enemy::new(51, EnemyType::Goblin, Position::new(0, 130_000), 1));
    for _ in 0..200 {
        w.tick();
    }
    assert_eq!(w.players[0].health, 10_000);
    assert_eq!(w.players[0].id, p.id);
    assert_eq!(w.players[0].position, Position::new(0, 0));
}

#[test]
fn test_tick_advances_clock_and_spawns() {
    let mut w = default_world();
    w.add_player_at(0);
    for _ in 0..40 {
        w.tick(); // 40 ticks at 20/s = 2 seconds: exactly one spawn wave
    }
    assert_eq!(w.game_time, 2_000);
    assert_eq!(w.enemies.len(), 2);
}

#[test]
fn test_apply_client_message_join_and_move() {
    let mut w = default_world();
    let (session, reply) = apply_client_message(&mut w, None, &ClientMessage::Join);
    assert_eq!(session, Some(0));
    match reply {
        Some(ServerMessage::Welcome { player_id }) => assert_eq!(player_id, 0),
        _ => panic!("expected a welcome"),
    }
    assert_eq!(w.players.len(), 1);

    let (session, reply) = apply_client_message(
        &mut w,
        session,
        &ClientMessage::Move { target: Position::new(700_000, 0) },
    );
    assert_eq!(session, Some(0));
    assert!(reply.is_none());
    // one tick's worth of movement: 120 units/s at 20 ticks/s = 6 units
    assert_eq!(w.players[0].position.x, 6_000);
}

#[test]
fn test_apply_client_message_move_before_join_is_noop() {
    let mut w = default_world();
    w.add_player_at(0);
    let (session, reply) = apply_client_message(
        &mut w,
        None,
        &ClientMessage::Move { target: Position::new(700_000, 0) },
    );
    assert_eq!(session, None);
    assert!(reply.is_none());
    assert_eq!(w.players[0].position, Position::new(0, 0));
}

#[test]
fn test_apply_client_message_upgrade_without_offer_errors() {
    let mut w = default_world();
    let (session, _) = apply_client_message(&mut w, None, &ClientMessage::Join);
    let (_, reply) = apply_client_message(
        &mut w,
        session,
        &ClientMessage::ChooseUpgrade { upgrade: UpgradeType::Armor },
    );
    match reply {
        Some(ServerMessage::Error { message }) => assert_eq!(message, "No pending level up"),
        _ => panic!("expected an error reply"),
    }
}

#[test]
fn test_apply_client_message_upgrade_resolves_offer() {
    let mut w = default_world();
    let (session, _) = apply_client_message(&mut w, None, &ClientMessage::Join);
    w.pending_level_ups.push(PendingLevelUp {
        player_id: session.unwrap(),
        choices: vec![UpgradeType::IncreaseDamage, UpgradeType::Armor, UpgradeType::Luck],
    });
    let (_, reply) = apply_client_message(
        &mut w,
        session,
        &ClientMessage::ChooseUpgrade { upgrade: UpgradeType::IncreaseDamage },
    );
    assert!(reply.is_none());
    assert_eq!(w.players[0].damage, 1_200);
    assert!(w.pending_level_ups.is_empty());
}

#[test]
fn test_add_and_remove_player_with_wall_clock() {
    let mut w = default_world();
    let p = w.add_player();
    assert_eq!(p.id, 0);
    assert_eq!(p.health, 10_000);
    assert_eq!(p.level, 1);
    assert_eq!(w.players.len(), 1);
    let removed = w.remove_player(p.id);
    assert_eq!(removed.map(|r| r.id), Some(p.id));
    assert!(w.players.is_empty());
    assert!(w.scores.is_empty()); // ring 1 does not qualify
}
