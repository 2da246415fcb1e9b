use vstd::prelude::*;
use crate::position::{Position, in_bounds, SPEED_CAP};
use crate::upgrades::{PlayerUpgrades, UpgradeType, applied};

verus! {

/// Health, damage and attack speed are stored in hundredths (a health of
/// 10_000 is 100.00 points; an attack speed of 100 is 1.00 attacks per
/// second). Movement speeds are milli-units per second; times are
/// milliseconds.
pub const HP_CAP: u64 = 1_000_000_000_000;

/// Largest attack speed, in hundredths of attacks per second.
pub const ATTACK_SPEED_CAP: u64 = 1_000_000;

/// Largest XP threshold a player can be asked for; growth saturates here.
pub const XP_THRESHOLD_CAP: u64 = 1_000_000_000_000_000;

/// Largest XP amount a single grant may carry.
pub const XP_GRANT_CAP: u64 = 1_000_000_000;

/// Largest simulation time, in milliseconds.
pub const TIME_CAP: u64 = 1 << 44;

/// Largest magnitude of a wall-clock reading, in Unix milliseconds; readings
/// are clamped here before they enter the model.
pub const CLOCK_CAP: i64 = 1_000_000_000_000_000;

pub const PLAYER_BASE_HEALTH: u64 = 10_000;

pub const PLAYER_BASE_DAMAGE: u64 = 1_000;

pub const PLAYER_BASE_ATTACK_SPEED: u64 = 100;

/// Faster base speed to reduce sluggish feel; server-authoritative.
pub const PLAYER_BASE_MOVEMENT_SPEED: i64 = 120_000;

/// First level requires 100 XP.
pub const PLAYER_FIRST_XP_THRESHOLD: u64 = 100;

/// Player entity.
#[derive(Debug, Clone, Copy)]
pub struct Player {
    pub id: u64,
    pub position: Position,
    /// hundredths of a point
    pub health: u64,
    pub max_health: u64,
    /// hundredths of a point
    pub damage: u64,
    /// hundredths of attacks per second
    pub attack_speed: u64,
    /// milli-units per second
    pub movement_speed: i64,
    /// simulation time, ms
    pub last_attack_time: u64,
    pub max_ring_reached: u32,
    pub enemies_defeated: u32,
    /// wall clock, Unix ms
    pub spawn_time: i64,
    pub level: u64,
    pub current_xp: u64,
    pub xp_to_next_level: u64,
    pub upgrades: PlayerUpgrades,
}

/// Well-formedness: health within its maximum, stats within the caps that
/// keep the arena's arithmetic exact, and the XP ledger consistent (the
/// accumulated XP always sits below the next threshold).
pub open spec fn player_wf(p: Player) -> bool {
    &&& p.health <= p.max_health <= HP_CAP
    &&& p.damage <= HP_CAP
    &&& p.attack_speed <= ATTACK_SPEED_CAP
    &&& 0 <= p.movement_speed <= SPEED_CAP
    &&& in_bounds(p.position)
    &&& p.last_attack_time <= TIME_CAP
    &&& -CLOCK_CAP <= p.spawn_time <= CLOCK_CAP
    &&& p.level >= 1
    &&& 100 <= p.xp_to_next_level <= XP_THRESHOLD_CAP
    &&& p.current_xp < p.xp_to_next_level
}

/// Health after taking `amount` damage: clamped at zero, never negative.
pub open spec fn damaged(health: u64, amount: u64) -> u64 {
    if amount >= health {
        0
    } else {
        (health - amount) as u64
    }
}

/// The XP threshold after one level-up: 20% more, saturating at the cap.
pub open spec fn next_threshold(th: int) -> int {
    if th * 6 / 5 > XP_THRESHOLD_CAP {
        XP_THRESHOLD_CAP as int
    } else {
        th * 6 / 5
    }
}

/// Saturating level increment.
pub open spec fn next_level(level: int) -> int {
    if level < u64::MAX {
        level + 1
    } else {
        level
    }
}

/// Leveling state after granting XP: while the accumulated XP meets or
/// exceeds the threshold, the level rises by one, the threshold is
/// subtracted from the XP, and the threshold grows by 20%.
pub open spec fn grant_spec(level: int, xp: int, th: int) -> (int, int, int)
    decreases xp,
{
    if th < 1 {
        (level, xp, th)
    } else if xp >= th {
        grant_spec(next_level(level), xp - th, next_threshold(th))
    } else {
        (level, xp, th)
    }
}

/// The baseline player created on join: at the arena center, ring 1,
/// level 1, 100 XP to the next level.
pub open spec fn new_player_spec(id: u64, spawn_time: i64) -> Player {
    Player {
        id,
        position: Position { x: 0, y: 0 },
        health: PLAYER_BASE_HEALTH,
        max_health: PLAYER_BASE_HEALTH,
        damage: PLAYER_BASE_DAMAGE,
        attack_speed: PLAYER_BASE_ATTACK_SPEED,
        movement_speed: PLAYER_BASE_MOVEMENT_SPEED,
        last_attack_time: 0,
        max_ring_reached: 1,
        enemies_defeated: 0,
        spawn_time,
        level: 1,
        current_xp: 0,
        xp_to_next_level: PLAYER_FIRST_XP_THRESHOLD,
        upgrades: PlayerUpgrades::none(),
    }
}

impl Player {
    /// A fresh player at the arena center with baseline stats, level 1, and
    /// 100 XP to the next level.
    pub fn new(id: u64, spawn_time: i64) -> (r: Player)
        requires
            -CLOCK_CAP <= spawn_time <= CLOCK_CAP,
        ensures
            r == new_player_spec(id, spawn_time),
            player_wf(r),
    {
        Player {
            id,
            position: Position::new(0, 0),  // spawn at center
            health: PLAYER_BASE_HEALTH,
            max_health: PLAYER_BASE_HEALTH,
            damage: PLAYER_BASE_DAMAGE,
            attack_speed: PLAYER_BASE_ATTACK_SPEED,
            movement_speed: PLAYER_BASE_MOVEMENT_SPEED,
            last_attack_time: 0,
            max_ring_reached: 1,
            enemies_defeated: 0,
            spawn_time,
            level: 1,
            current_xp: 0,
            xp_to_next_level: PLAYER_FIRST_XP_THRESHOLD,
            upgrades: PlayerUpgrades::default(),
        }
    }

    pub fn is_alive(&self) -> (r: bool)
        ensures
            r == (self.health > 0),
    {
        self.health > 0
    }

    /// Whether this player stands inside the safe zone: within
    /// `safe_zone_radius` of the arena center (boundary inclusive).
    pub fn is_in_safe_zone(&self, safe_zone_radius: i64) -> (r: bool)
        requires
            in_bounds(self.position),
            0 <= safe_zone_radius <= crate::position::COORD_LIMIT,
        ensures
            r == in_safe_zone_spec(self.position, safe_zone_radius as int),
    {
        proof {
            crate::position::lemma_dist_sq_bounds(self.position, crate::position::origin());
            assert(0 <= (safe_zone_radius as int) * (safe_zone_radius as int)
                <= 1_000_000_000_000_000_000) by (nonlinear_arith)
                requires 0 <= safe_zone_radius <= 1_000_000_000;
        }
        let dx = self.position.x;
        let dy = self.position.y;
        proof {
            assert(0 <= dx * dx <= 1_000_000_000_000_000_000
                && 0 <= dy * dy <= 1_000_000_000_000_000_000) by (nonlinear_arith)
                requires -1_000_000_000 <= dx <= 1_000_000_000, -1_000_000_000 <= dy <= 1_000_000_000;
        }
        let d2 = dx * dx + dy * dy;
        d2 <= safe_zone_radius * safe_zone_radius
    }

    /// Reduce health by `amount`, clamped at zero.
    pub fn take_damage(&mut self, amount: u64)
        ensures
            *final(self) == (Player { health: damaged(old(self).health, amount), ..*old(self) }),
    {
        if amount >= self.health {
            self.health = 0;
        } else {
            self.health = self.health - amount;
        }
    }

    /// Whether the attack cooldown (one over the attack speed) has elapsed
    /// at simulation time `current_time`.
    pub fn can_attack(&self, current_time: u64) -> (r: bool)
        ensures
            r == can_attack_at(self.attack_speed, self.last_attack_time, current_time),
    {
        attack_ready(self.attack_speed, self.last_attack_time, current_time)
    }

    /// Grant XP and level up while the threshold is met. Returns whether at
    /// least one level-up happened.
    pub fn grant_xp(&mut self, amount: u64) -> (leveled: bool)
        requires
            player_wf(*old(self)),
            amount <= XP_GRANT_CAP,
        ensures
            player_wf(*final(self)),
            ({
                let (l, x, t) = grant_spec(
                    old(self).level as int,
                    old(self).current_xp + amount,
                    old(self).xp_to_next_level as int,
                );
                final(self).level == l && final(self).current_xp == x
                    && final(self).xp_to_next_level == t
            }),
            leveled == (old(self).current_xp + amount >= old(self).xp_to_next_level),
            *final(self) == (Player {
                level: final(self).level,
                current_xp: final(self).current_xp,
                xp_to_next_level: final(self).xp_to_next_level,
                ..*old(self)
            }),
    {
        self.current_xp = self.current_xp + amount;
        let leveled = self.current_xp >= self.xp_to_next_level;
        while self.current_xp >= self.xp_to_next_level
            invariant
                100 <= self.xp_to_next_level <= XP_THRESHOLD_CAP,
                self.current_xp <= old(self).current_xp + amount,
                self.current_xp + self.xp_to_next_level <= u64::MAX,
                self.level >= 1,
                grant_spec(
                    old(self).level as int,
                    old(self).current_xp + amount,
                    old(self).xp_to_next_level as int,
                ) == grant_spec(
                    self.level as int,
                    self.current_xp as int,
                    self.xp_to_next_level as int,
                ),
                *self == (Player {
                    level: self.level,
                    current_xp: self.current_xp,
                    xp_to_next_level: self.xp_to_next_level,
                    ..*old(self)
                }),
            decreases self.current_xp,
        {
            if self.level < u64::MAX {
                self.level = self.level + 1;
            }
            self.current_xp = self.current_xp - self.xp_to_next_level;
            // XP requirement increases by 20% per level, saturating at the cap
            let grown = self.xp_to_next_level * 6 / 5;
            self.xp_to_next_level = if grown > XP_THRESHOLD_CAP {
                XP_THRESHOLD_CAP
            } else {
                grown
            };
        }
        leveled
    }
}

/// The capped value of a recomputed stat.
pub open spec fn capped(v: int, cap: int) -> int {
    if v > cap {
        cap
    } else {
        v
    }
}

/// A player after choosing one upgrade: the upgrade level rises, and the
/// directly affected live stat is recomputed from its base value times the
/// upgrade's multiplier (capped at the stat's cap). A max-health increase
/// also heals the player by the exact delta, so current health never
/// regresses.
pub open spec fn upgraded_player_spec(p: Player, upgrade: UpgradeType) -> Player {
    let u = applied(p.upgrades, upgrade);
    match upgrade {
        UpgradeType::IncreaseDamage => Player {
            upgrades: u,
            damage: (PLAYER_BASE_DAMAGE * (100 + 20 * u.damage_level) / 100) as u64,
            ..p
        },
        UpgradeType::IncreaseAttackSpeed => Player {
            upgrades: u,
            attack_speed: capped(
                PLAYER_BASE_ATTACK_SPEED * (100 + 15 * u.attack_speed_level) / 100,
                ATTACK_SPEED_CAP as int,
            ) as u64,
            ..p
        },
        UpgradeType::IncreaseMovementSpeed => Player {
            upgrades: u,
            movement_speed: capped(
                PLAYER_BASE_MOVEMENT_SPEED * (100 + 10 * u.movement_speed_level) / 100,
                SPEED_CAP as int,
            ) as i64,
            ..p
        },
        UpgradeType::IncreaseMaxHealth => {
            let new_max = capped(
                PLAYER_BASE_HEALTH * (100 + 25 * u.max_health_level) / 100,
                HP_CAP as int,
            );
            Player {
                upgrades: u,
                max_health: new_max as u64,
                health: (if new_max >= p.max_health {
                    p.health + (new_max - p.max_health)
                } else if p.health <= new_max {
                    p.health as int
                } else {
                    new_max
                }) as u64,
                ..p
            }
        },
        _ => Player { upgrades: u, ..p },
    }
}

impl Player {
    /// Record a chosen upgrade and recompute the affected live stat.
    pub fn apply_chosen_upgrade(&mut self, upgrade: UpgradeType)
        requires
            player_wf(*old(self)),
        ensures
            player_wf(*final(self)),
            *final(self) == upgraded_player_spec(*old(self), upgrade),
    {
        self.upgrades.apply_upgrade(upgrade);
        match upgrade {
            UpgradeType::IncreaseDamage => {
                let m = self.upgrades.damage_multiplier();
                self.damage = PLAYER_BASE_DAMAGE * m / 100;
            }
            UpgradeType::IncreaseAttackSpeed => {
                let m = self.upgrades.attack_speed_multiplier();
                let v = PLAYER_BASE_ATTACK_SPEED * m / 100;
                self.attack_speed = if v > ATTACK_SPEED_CAP {
                    ATTACK_SPEED_CAP
                } else {
                    v
                };
            }
            UpgradeType::IncreaseMovementSpeed => {
                let m = self.upgrades.movement_speed_multiplier();
                let v = (PLAYER_BASE_MOVEMENT_SPEED as u64) * m / 100;
                self.movement_speed = if v > (SPEED_CAP as u64) {
                    SPEED_CAP
                } else {
                    v as i64
                };
            }
            UpgradeType::IncreaseMaxHealth => {
                let m: u64 = 100 + 25 * (self.upgrades.max_health_level as u64);
                let raw = PLAYER_BASE_HEALTH * m / 100;
                let new_max = if raw > HP_CAP {
                    HP_CAP
                } else {
                    raw
                };
                if new_max >= self.max_health {
                    // heal the exact difference
                    self.health = self.health + (new_max - self.max_health);
                } else if self.health > new_max {
                    self.health = new_max;
                }
                self.max_health = new_max;
            }
            _ => {
                // other upgrades are passive or handled at attack time
            }
        }
    }
}

/// Whether a combatant with attack speed `speed` (hundredths of attacks per
/// second) that last attacked at `last` is ready to attack at `now`: the
/// elapsed time reaches the cooldown `100_000 / speed` milliseconds. A speed
/// of zero never attacks.
pub open spec fn can_attack_at(speed: u64, last: u64, now: u64) -> bool {
    speed > 0 && now >= last && now - last >= 100_000 as int / speed as int
}

/// Shared cooldown test for players and enemies.
pub fn attack_ready(speed: u64, last: u64, now: u64) -> (r: bool)
    ensures
        r == can_attack_at(speed, last, now),
{
    if speed == 0 {
        false
    } else if now < last {
        false
    } else {
        let cooldown = 100_000u64 / speed;
        now - last >= cooldown
    }
}

/// Whether a position lies inside the safe zone of the given radius:
/// its distance from the arena center is at most the radius (inclusive,
/// compared exactly on squared distances).
pub open spec fn in_safe_zone_spec(p: Position, safe_zone_radius: int) -> bool {
    crate::position::dist_sq(p, crate::position::origin()) <= safe_zone_radius * safe_zone_radius
}

/// Damage never drives health below zero, and repeated lethal damage is
/// idempotent at zero: once a hit empties the health bar, any further hit
/// leaves it exactly at zero.
pub proof fn lemma_damage_floor(health: u64, first: u64, second: u64)
    requires
        first >= health,
    ensures
        damaged(health, first) == 0,
        damaged(damaged(health, first), second) == 0,
        forall|h: u64, a: u64| #[trigger] damaged(h, a) == (if h - a >= 0 { h - a } else { 0int }),
{
}

/// Granting XP equal to exactly the remaining threshold triggers exactly one
/// level-up and leaves the accumulated XP at zero, with the threshold grown
/// by 20%.
pub proof fn lemma_exact_threshold_levels_once(level: u64, th: u64)
    requires
        1 <= level < u64::MAX,
        100 <= th <= XP_THRESHOLD_CAP,
    ensures
        grant_spec(level as int, th as int, th as int)
            == (level + 1int, 0int, next_threshold(th as int)),
        th * 6 / 5 <= XP_THRESHOLD_CAP ==> next_threshold(th as int) == th * 6 / 5,
{
    assert(next_threshold(th as int) >= 100) by {
        assert(th * 6 / 5 >= 100) by (nonlinear_arith)
            requires th >= 100;
    }
    assert(grant_spec(level as int, th as int, th as int)
        == grant_spec(level + 1, 0, next_threshold(th as int)));
    assert(grant_spec(level + 1, 0, next_threshold(th as int))
        == (level + 1int, 0int, next_threshold(th as int)));
}

/// The XP threshold after `k` successive level-ups.
pub open spec fn threshold_after(th: int, k: int) -> int
    decreases k,
{
    if k <= 0 {
        th
    } else {
        threshold_after(next_threshold(th), k - 1)
    }
}

/// The total XP that `k` successive level-ups charge, starting at
/// threshold `th`.
pub open spec fn thresholds_sum(th: int, k: int) -> int
    decreases k,
{
    if k <= 0 {
        0
    } else {
        th + thresholds_sum(next_threshold(th), k - 1)
    }
}

/// One level-up keeps the threshold between its floor and its cap.
pub proof fn lemma_next_threshold_bounds(th: int)
    requires
        100 <= th <= XP_THRESHOLD_CAP,
    ensures
        100 <= next_threshold(th) <= XP_THRESHOLD_CAP,
{
    assert(th * 6 / 5 >= 100) by (nonlinear_arith)
        requires th >= 100;
}

/// The XP charged by successive level-ups is never negative.
pub proof fn lemma_thresholds_sum_nonneg(th: int, k: int)
    requires
        100 <= th <= XP_THRESHOLD_CAP,
        k >= 0,
    ensures
        thresholds_sum(th, k) >= 0,
    decreases k,
{
    if k > 0 {
        lemma_next_threshold_bounds(th);
        lemma_thresholds_sum_nonneg(next_threshold(th), k - 1);
    }
}

/// Granting XP far exceeding the threshold triggers multiple sequential
/// level-ups: an amount spanning exactly `k` successive thresholds — each
/// raised by the fixed 20% growth factor before the next one is charged —
/// raises the level by exactly `k` and leaves the remainder accumulated.
pub proof fn lemma_sequential_level_ups(level: int, th: int, k: int, rest: int)
    requires
        1 <= level,
        level + k < u64::MAX,
        100 <= th <= XP_THRESHOLD_CAP,
        k >= 0,
        0 <= rest < threshold_after(th, k),
    ensures
        grant_spec(level, thresholds_sum(th, k) + rest, th)
            == (level + k, rest, threshold_after(th, k)),
    decreases k,
{
    if k == 0 {
    } else {
        lemma_next_threshold_bounds(th);
        lemma_thresholds_sum_nonneg(next_threshold(th), k - 1);
        lemma_sequential_level_ups(level + 1, next_threshold(th), k - 1, rest);
        assert(grant_spec(level, thresholds_sum(th, k) + rest, th) == grant_spec(
            level + 1,
            thresholds_sum(next_threshold(th), k - 1) + rest,
            next_threshold(th),
        ));
    }
}

} // verus!
