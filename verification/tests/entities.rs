use arena_core::position::Position;
use arena_core::player::Player;
use arena_core::enemy::EnemyType;
use arena_core::upgrades::{PlayerUpgrades, UpgradeType};

// Positions are in milli-units (thousandths of a world unit); health, damage
// and attack speeds in hundredths; times in milliseconds.

#[test]
fn test_position_distance() {
    let p1 = Position::new(0, 0);
    let p2 = Position::new(3_000, 4_000);

    // a 3-4-5 triangle: the distance is exact in the integer model
    assert_eq!(p1.distance_to(&p2), 5_000);
}

#[test]
fn test_position_ring_calculation() {
    let ring_radius = 200_000;

    // Center should be ring 1 (min value)
    let center = Position::new(0, 0);
    assert_eq!(center.ring(ring_radius), 1);

    // Within first ring boundary
    let p1 = Position::new(150_000, 0);
    assert_eq!(p1.ring(ring_radius), 1);

    // At ring 1 boundary
    let p1_edge = Position::new(200_000, 0);
    assert_eq!(p1_edge.ring(ring_radius), 1);

    // Ring 2
    let p2 = Position::new(450_000, 0);
    assert_eq!(p2.ring(ring_radius), 2);

    // Ring 5
    let p5 = Position::new(1_050_000, 0);
    assert_eq!(p5.ring(ring_radius), 5);
}

#[test]
fn test_position_move_towards() {
    let mut pos = Position::new(0, 0);
    let target = Position::new(10_000, 0);
    let speed = 5_000; // 5 units per second
    let delta = 1_000; // one second

    pos.move_towards(&target, speed, delta);

    // Should move 5 units towards target
    assert_eq!(pos.x, 5_000);
    assert_eq!(pos.y, 0);
}

#[test]
fn test_enemy_stats_scaling() {
    let goblin = EnemyType::Goblin;

    let ring1_stats = goblin.stats_for_ring(1);
    let ring5_stats = goblin.stats_for_ring(5);

    // Ring 5 should have higher stats than ring 1
    assert!(ring5_stats.max_health > ring1_stats.max_health);
    assert!(ring5_stats.damage > ring1_stats.damage);
    assert!(ring5_stats.movement_speed > ring1_stats.movement_speed);
}

#[test]
fn test_all_enemy_types_exist() {
    let types = EnemyType::all();
    assert_eq!(types.len(), 10);

    // Verify all types can generate stats
    for enemy_type in types {
        let stats = enemy_type.stats_for_ring(1);
        assert!(stats.max_health > 0);
        assert!(stats.damage > 0);
        assert!(stats.movement_speed > 0);
    }
}

#[test]
fn test_move_towards_reaches_target_exactly() {
    // moving by more than the remaining distance lands exactly on the target
    let mut pos = Position::new(0, 0);
    let target = Position::new(3_000, 4_000); // 5 units away
    pos.move_towards(&target, 10_000, 1_000); // step of 10 units
    assert_eq!(pos.x, 3_000);
    assert_eq!(pos.y, 4_000);
}

#[test]
fn test_move_towards_never_overshoots() {
    let mut pos = Position::new(1_000, 2_000);
    let target = Position::new(9_000, 2_000);
    for _ in 0..100 {
        pos.move_towards(&target, 3_000, 100);
        assert!(pos.x <= 9_000 && pos.x >= 1_000);
        assert_eq!(pos.y, 2_000);
    }
    assert_eq!(pos.x, 9_000);
}

#[test]
fn test_move_towards_zero_distance_is_arrival() {
    let mut pos = Position::new(42, -7);
    let target = Position::new(42, -7);
    pos.move_towards(&target, 120_000, 1_000);
    assert_eq!(pos.x, 42);
    assert_eq!(pos.y, -7);
}

#[test]
fn test_ring_never_below_one() {
    let ring_radius = 200_000;
    for d in [0i64, 1, 100, 199_999, 200_000] {
        let p = Position::new(d, 0);
        assert!(p.ring(ring_radius) >= 1);
    }
    // non-decreasing in distance from center
    let mut last = 0;
    for d in [0i64, 50_000, 250_000, 399_999, 400_000, 999_999] {
        let r = Position::new(d, 0).ring(ring_radius);
        assert!(r >= last);
        last = r;
    }
}

#[test]
fn test_take_damage_floors_at_zero() {
    let mut p = Player::new(1, 0);
    assert_eq!(p.health, 10_000);
    p.take_damage(4_000);
    assert_eq!(p.health, 6_000);
    // lethal damage stops exactly at zero
    p.take_damage(1_000_000);
    assert_eq!(p.health, 0);
    assert!(!p.is_alive());
    // repeated lethal damage is idempotent at zero
    p.take_damage(1_000_000);
    assert_eq!(p.health, 0);
}

#[test]
fn test_grant_xp_exact_threshold_levels_once() {
    let mut p = Player::new(1, 0);
    assert_eq!(p.level, 1);
    assert_eq!(p.xp_to_next_level, 100);
    let leveled = p.grant_xp(100);
    assert!(leveled);
    assert_eq!(p.level, 2);
    assert_eq!(p.current_xp, 0);
    // the threshold grows by exactly 20%
    assert_eq!(p.xp_to_next_level, 120);
}

#[test]
fn test_grant_xp_below_threshold_no_level() {
    let mut p = Player::new(1, 0);
    let leveled = p.grant_xp(99);
    assert!(!leveled);
    assert_eq!(p.level, 1);
    assert_eq!(p.current_xp, 99);
    assert_eq!(p.xp_to_next_level, 100);
}

#[test]
fn test_grant_xp_overshoot_levels_repeatedly() {
    let mut p = Player::new(1, 0);
    // 100 + 120 = 220 XP spans exactly two thresholds
    let leveled = p.grant_xp(220);
    assert!(leveled);
    assert_eq!(p.level, 3);
    assert_eq!(p.current_xp, 0);
    assert_eq!(p.xp_to_next_level, 144); // 120 * 6 / 5
}

#[test]
fn test_can_attack_cooldown() {
    let mut p = Player::new(1, 0);
    // base attack speed is 1.00 attacks per second: 1000 ms cooldown
    assert!(p.can_attack(1_000));
    assert!(!p.can_attack(999));
    p.last_attack_time = 5_000;
    assert!(!p.can_attack(5_999));
    assert!(p.can_attack(6_000));
}

#[test]
fn test_enemy_base_stats_table() {
    let goblin = EnemyType::Goblin.base_stats();
    assert_eq!(goblin.max_health, 2_000); // 20.00 points
    assert_eq!(goblin.damage, 500);
    assert_eq!(goblin.movement_speed, 4_000);
    assert_eq!(goblin.attack_speed, 80);

    let dragon = EnemyType::Dragon.base_stats();
    assert_eq!(dragon.max_health, 15_000);
    assert_eq!(dragon.damage, 3_000);
}

#[test]
fn test_enemy_stats_for_ring_formulas() {
    // health scales linearly; damage +30% of base per ring; speed +10%
    let s3 = EnemyType::Goblin.stats_for_ring(3);
    assert_eq!(s3.max_health, 2_000 * 3);
    assert_eq!(s3.damage, 500 / 10 * (10 + 3 * 2)); // 800
    assert_eq!(s3.movement_speed, 4_000 / 10 * (10 + 2)); // 4_800
    assert_eq!(s3.attack_speed, 80); // attack speed does not scale
}

#[test]
fn test_enemy_xp_reward_formula() {
    // base XP times five per ring level
    assert_eq!(EnemyType::Goblin.xp_for_ring(1), 50);
    assert_eq!(EnemyType::Goblin.xp_for_ring(2), 100);
    assert_eq!(EnemyType::Dragon.xp_for_ring(10), 2_500);
    assert_eq!(EnemyType::Lich.xp_for_ring(3), 600);
}

#[test]
fn test_enemy_pools_per_ring() {
    assert_eq!(EnemyType::for_ring(1), vec![EnemyType::Goblin, EnemyType::Wolf]);
    assert_eq!(
        EnemyType::for_ring(9),
        vec![EnemyType::Dragon, EnemyType::Demon, EnemyType::Troll]
    );
    // rings past the table share the top-tier pool
    assert_eq!(EnemyType::for_ring(10), vec![EnemyType::Dragon, EnemyType::Lich]);
    assert_eq!(EnemyType::for_ring(400), vec![EnemyType::Dragon, EnemyType::Lich]);
}

#[test]
fn test_upgrade_multipliers() {
    let mut u = PlayerUpgrades::default();
    assert_eq!(u.damage_multiplier(), 100);
    u.apply_upgrade(UpgradeType::IncreaseDamage);
    u.apply_upgrade(UpgradeType::IncreaseDamage);
    assert_eq!(u.damage_multiplier(), 140); // +20% per level
    u.apply_upgrade(UpgradeType::IncreaseAttackSpeed);
    assert_eq!(u.attack_speed_multiplier(), 115);
    u.apply_upgrade(UpgradeType::IncreaseMovementSpeed);
    assert_eq!(u.movement_speed_multiplier(), 110);
    u.apply_upgrade(UpgradeType::IncreaseProjectileSpeed);
    assert_eq!(u.projectile_speed_multiplier(), 125);
    u.apply_upgrade(UpgradeType::MultiShot);
    assert_eq!(u.extra_projectiles(), 2);
    u.apply_upgrade(UpgradeType::Magnet);
    assert!(u.has_magnet);
}

#[test]
fn test_armor_damage_reduction_caps() {
    let mut u = PlayerUpgrades::default();
    for _ in 0..3 {
        u.apply_upgrade(UpgradeType::Armor);
    }
    assert_eq!(u.damage_reduction(), 30);
    for _ in 0..20 {
        u.apply_upgrade(UpgradeType::Armor);
    }
    assert_eq!(u.damage_reduction(), 75); // capped at 75%
}

#[test]
fn test_random_choices_are_three_distinct() {
    for _ in 0..20 {
        let choices = UpgradeType::random_choices(&Vec::new());
        assert_eq!(choices.len(), 3);
        assert!(choices[0] != choices[1]);
        assert!(choices[0] != choices[2]);
        assert!(choices[1] != choices[2]);
    }
}

#[test]
fn test_random_choices_respect_exclusions() {
    let exclude = vec![
        UpgradeType::IncreaseDamage,
        UpgradeType::IncreaseAttackSpeed,
        UpgradeType::IncreaseProjectileSpeed,
        UpgradeType::MultiShot,
        UpgradeType::PiercingShots,
        UpgradeType::IncreaseMaxHealth,
        UpgradeType::IncreaseMovementSpeed,
        UpgradeType::HealthRegeneration,
        UpgradeType::PickupRadius,
        UpgradeType::Magnet,
    ];
    for _ in 0..10 {
        let choices = UpgradeType::random_choices(&exclude);
        assert_eq!(choices.len(), 2); // only Armor and Luck remain
        for c in &choices {
            assert!(!exclude.contains(c));
        }
    }
}

#[test]
fn test_upgrade_names() {
    assert_eq!(UpgradeType::IncreaseDamage.name(), "Damage+");
    assert_eq!(UpgradeType::Armor.description(), "Reduce damage taken by 10%");
}

#[test]
fn test_stats_scaling_strict_for_every_kind() {
    for t in EnemyType::all() {
        for ring in 1..9u32 {
            let a = t.stats_for_ring(ring);
            let b = t.stats_for_ring(ring + 1);
            assert!(a.max_health < b.max_health);
            assert!(a.damage < b.damage);
            assert!(a.movement_speed < b.movement_speed);
        }
    }
}

#[test]
fn test_move_towards_diagonal_arrives() {
    let mut pos = Position::new(0, 0);
    let target = Position::new(30_000, 40_000);
    for _ in 0..100 {
        pos.move_towards(&target, 1_000, 1_000);
        assert!(0 <= pos.x && pos.x <= 30_000);
        assert!(0 <= pos.y && pos.y <= 40_000);
    }
    assert_eq!(pos.x, 30_000);
    assert_eq!(pos.y, 40_000);
}

#[test]
fn test_move_towards_sub_threshold_is_arrival() {
    // within 0.01 world units (10 milli-units) of the target: no movement
    let mut pos = Position::new(0, 0);
    let target = Position::new(3, 4); // 5 milli-units away
    pos.move_towards(&target, 120_000, 1_000);
    assert_eq!(pos.x, 0);
    assert_eq!(pos.y, 0);

    let mut pos = Position::new(0, 0);
    let target = Position::new(10, 0); // exactly at the threshold
    pos.move_towards(&target, 120_000, 1_000);
    assert_eq!(pos.x, 0);

    let mut pos = Position::new(0, 0);
    let target = Position::new(11, 0); // just outside: moves (and arrives)
    pos.move_towards(&target, 120_000, 1_000);
    assert_eq!(pos.x, 11);
}

#[test]
fn test_grant_xp_three_sequential_level_ups() {
    let mut p = Player::new(1, 0);
    // 100 + 120 + 144 = 364 XP spans exactly three thresholds
    let leveled = p.grant_xp(364);
    assert!(leveled);
    assert_eq!(p.level, 4);
    assert_eq!(p.current_xp, 0);
    assert_eq!(p.xp_to_next_level, 172); // 144 * 6 / 5

    // and a remainder below the next threshold stays accumulated
    let mut q = Player::new(2, 0);
    q.grant_xp(364 + 171);
    assert_eq!(q.level, 4);
    assert_eq!(q.current_xp, 171);
    assert_eq!(q.xp_to_next_level, 172);
}
