use vstd::prelude::*;
use crate::position::{Position, in_bounds, SPEED_CAP};
use crate::player::{HP_CAP, ATTACK_SPEED_CAP, TIME_CAP, can_attack_at, attack_ready, damaged};

verus! {

/// Largest ring index the stat tables accept; keeps every scaled stat well
/// inside its cap.
pub const RING_CAP: u32 = 10_000;

/// Enemy type enumeration.
#[derive(Debug, Clone, Copy, PartialEq, Eq, Hash, Structural)]
pub enum EnemyType {
    Goblin,
    Orc,
    Wolf,
    Skeleton,
    Zombie,
    Demon,
    Wraith,
    Troll,
    Dragon,
    Lich,
}

/// Base (ring 1) stats of one enemy kind. Health and damage are hundredths
/// of a point, attack speed hundredths of attacks per second, movement speed
/// milli-units per second.
#[derive(Debug, Clone, Copy, PartialEq, Eq, Structural)]
pub struct EnemyStats {
    pub max_health: u64,
    pub damage: u64,
    pub movement_speed: i64,
    pub attack_speed: u64,
}

pub open spec fn all_types() -> Seq<EnemyType> {
    seq![
        EnemyType::Goblin,
        EnemyType::Orc,
        EnemyType::Wolf,
        EnemyType::Skeleton,
        EnemyType::Zombie,
        EnemyType::Demon,
        EnemyType::Wraith,
        EnemyType::Troll,
        EnemyType::Dragon,
        EnemyType::Lich,
    ]
}

/// The kinds allowed to spawn in each ring; rings past the table share the
/// top-tier pool.
pub open spec fn pool_for_ring(ring: int) -> Seq<EnemyType> {
    if ring == 1 {
        seq![EnemyType::Goblin, EnemyType::Wolf]
    } else if ring == 2 {
        seq![EnemyType::Orc, EnemyType::Skeleton]
    } else if ring == 3 {
        seq![EnemyType::Zombie, EnemyType::Wraith]
    } else if ring == 4 {
        seq![EnemyType::Demon, EnemyType::Wolf]
    } else if ring == 5 {
        seq![EnemyType::Troll, EnemyType::Skeleton]
    } else if ring == 6 {
        seq![EnemyType::Zombie, EnemyType::Demon]
    } else if ring == 7 {
        seq![EnemyType::Wraith, EnemyType::Troll]
    } else if ring == 8 {
        seq![EnemyType::Dragon, EnemyType::Lich]
    } else if ring == 9 {
        seq![EnemyType::Dragon, EnemyType::Demon, EnemyType::Troll]
    } else {
        seq![EnemyType::Dragon, EnemyType::Lich]
    }
}

pub open spec fn base_stats_spec(t: EnemyType) -> EnemyStats {
    match t {
        EnemyType::Goblin => EnemyStats {
            max_health: 2_000,
            damage: 500,
            movement_speed: 4_000,
            attack_speed: 80,
        },
        EnemyType::Orc => EnemyStats {
            max_health: 4_000,
            damage: 800,
            movement_speed: 3_000,
            attack_speed: 60,
        },
        EnemyType::Wolf => EnemyStats {
            max_health: 1_500,
            damage: 700,
            movement_speed: 6_000,
            attack_speed: 120,
        },
        EnemyType::Skeleton => EnemyStats {
            max_health: 2_500,
            damage: 600,
            movement_speed: 3_500,
            attack_speed: 90,
        },
        EnemyType::Zombie => EnemyStats {
            max_health: 5_000,
            damage: 1_000,
            movement_speed: 2_000,
            attack_speed: 50,
        },
        EnemyType::Demon => EnemyStats {
            max_health: 6_000,
            damage: 1_500,
            movement_speed: 4_500,
            attack_speed: 70,
        },
        EnemyType::Wraith => EnemyStats {
            max_health: 3_000,
            damage: 1_200,
            movement_speed: 5_000,
            attack_speed: 100,
        },
        EnemyType::Troll => EnemyStats {
            max_health: 10_000,
            damage: 2_000,
            movement_speed: 2_500,
            attack_speed: 40,
        },
        EnemyType::Dragon => EnemyStats {
            max_health: 15_000,
            damage: 3_000,
            movement_speed: 3_000,
            attack_speed: 50,
        },
        EnemyType::Lich => EnemyStats {
            max_health: 12_000,
            damage: 2_500,
            movement_speed: 3_500,
            attack_speed: 80,
        },
    }
}

/// Stats scaled for a ring: health grows linearly with the ring number,
/// damage by 30% of the base per ring step, movement speed by 10% of the
/// base per ring step; attack speed does not scale.
pub open spec fn stats_for_ring_spec(t: EnemyType, ring: int) -> EnemyStats {
    let base = base_stats_spec(t);
    let rl = if ring < 1 { 1 } else { ring };
    EnemyStats {
        max_health: (base.max_health * rl) as u64,
        damage: (base.damage / 10 * (10 + 3 * (rl - 1))) as u64,
        movement_speed: (base.movement_speed / 10 * (10 + (rl - 1))) as i64,
        attack_speed: base.attack_speed,
    }
}

pub open spec fn base_xp_spec(t: EnemyType) -> int {
    match t {
        EnemyType::Goblin | EnemyType::Wolf => 10,
        EnemyType::Orc | EnemyType::Skeleton => 15,
        EnemyType::Zombie | EnemyType::Wraith => 20,
        EnemyType::Demon => 25,
        EnemyType::Troll => 30,
        EnemyType::Dragon => 50,
        EnemyType::Lich => 40,
    }
}

/// XP for killing this kind at a ring: the base XP times five per ring level.
pub open spec fn xp_for_ring_spec(t: EnemyType, ring: int) -> int {
    let rl = if ring < 1 { 1 } else { ring };
    base_xp_spec(t) * rl * 5
}

impl EnemyType {
    pub fn all() -> (r: Vec<EnemyType>)
        ensures
            r@ == all_types(),
    {
        let mut v: Vec<EnemyType> = Vec::new();
        v.push(EnemyType::Goblin);
        v.push(EnemyType::Orc);
        v.push(EnemyType::Wolf);
        v.push(EnemyType::Skeleton);
        v.push(EnemyType::Zombie);
        v.push(EnemyType::Demon);
        v.push(EnemyType::Wraith);
        v.push(EnemyType::Troll);
        v.push(EnemyType::Dragon);
        v.push(EnemyType::Lich);
        proof {
            assert(v@ =~= all_types());
        }
        v
    }

    /// The enemy kinds appropriate for a given ring.
    pub fn for_ring(ring: u32) -> (r: Vec<EnemyType>)
        ensures
            r@ == pool_for_ring(ring as int),
            r@.len() >= 1,
    {
        let mut v: Vec<EnemyType> = Vec::new();
        match ring {
            1 => {
                v.push(EnemyType::Goblin);
                v.push(EnemyType::Wolf);
            }
            2 => {
                v.push(EnemyType::Orc);
                v.push(EnemyType::Skeleton);
            }
            3 => {
                v.push(EnemyType::Zombie);
                v.push(EnemyType::Wraith);
            }
            4 => {
                v.push(EnemyType::Demon);
                v.push(EnemyType::Wolf);
            }
            5 => {
                v.push(EnemyType::Troll);
                v.push(EnemyType::Skeleton);
            }
            6 => {
                v.push(EnemyType::Zombie);
                v.push(EnemyType::Demon);
            }
            7 => {
                v.push(EnemyType::Wraith);
                v.push(EnemyType::Troll);
            }
            8 => {
                v.push(EnemyType::Dragon);
                v.push(EnemyType::Lich);
            }
            9 => {
                v.push(EnemyType::Dragon);
                v.push(EnemyType::Demon);
                v.push(EnemyType::Troll);
            }
            _ => {
                // 10 and beyond
                v.push(EnemyType::Dragon);
                v.push(EnemyType::Lich);
            }
        }
        proof {
            assert(v@ =~= pool_for_ring(ring as int));
        }
        v
    }

    /// Base stats for this enemy type (ring 1 stats).
    pub fn base_stats(&self) -> (r: EnemyStats)
        ensures
            r == base_stats_spec(*self),
    {
        match self {
            EnemyType::Goblin => EnemyStats {
                max_health: 2_000,
                damage: 500,
                movement_speed: 4_000,
                attack_speed: 80,
            },
            EnemyType::Orc => EnemyStats {
                max_health: 4_000,
                damage: 800,
                movement_speed: 3_000,
                attack_speed: 60,
            },
            EnemyType::Wolf => EnemyStats {
                max_health: 1_500,
                damage: 700,
                movement_speed: 6_000,
                attack_speed: 120,
            },
            EnemyType::Skeleton => EnemyStats {
                max_health: 2_500,
                damage: 600,
                movement_speed: 3_500,
                attack_speed: 90,
            },
            EnemyType::Zombie => EnemyStats {
                max_health: 5_000,
                damage: 1_000,
                movement_speed: 2_000,
                attack_speed: 50,
            },
            EnemyType::Demon => EnemyStats {
                max_health: 6_000,
                damage: 1_500,
                movement_speed: 4_500,
                attack_speed: 70,
            },
            EnemyType::Wraith => EnemyStats {
                max_health: 3_000,
                damage: 1_200,
                movement_speed: 5_000,
                attack_speed: 100,
            },
            EnemyType::Troll => EnemyStats {
                max_health: 10_000,
                damage: 2_000,
                movement_speed: 2_500,
                attack_speed: 40,
            },
            EnemyType::Dragon => EnemyStats {
                max_health: 15_000,
                damage: 3_000,
                movement_speed: 3_000,
                attack_speed: 50,
            },
            EnemyType::Lich => EnemyStats {
                max_health: 12_000,
                damage: 2_500,
                movement_speed: 3_500,
                attack_speed: 80,
            },
        }
    }

    /// Stats scaled for a given ring.
    pub fn stats_for_ring(&self, ring: u32) -> (r: EnemyStats)
        requires
            ring <= RING_CAP,
        ensures
            r == stats_for_ring_spec(*self, ring as int),
            r.max_health <= HP_CAP,
            r.damage <= HP_CAP,
            0 < r.movement_speed <= SPEED_CAP,
            0 < r.attack_speed <= ATTACK_SPEED_CAP,
            r.max_health > 0,
    {
        let base = self.base_stats();
        let rl: u64 = if ring < 1 {
            1
        } else {
            ring as u64
        };
        proof {
            lemma_base_stats_bounds(*self);
            assert(1 <= base.max_health * rl <= 150_000_000
                && base.damage / 10 * (10 + 3 * (rl - 1)) >= 10
                && base.damage / 10 * (10 + 3 * (rl - 1)) <= 10_000_000
                && (base.movement_speed as int) / 10 * (10 + (rl - 1)) >= 10
                && (base.movement_speed as int) / 10 * (10 + (rl - 1)) <= 10_000_000)
                by (nonlinear_arith)
                requires
                    1 <= rl <= RING_CAP,
                    1_500 <= base.max_health <= 15_000,
                    50 <= base.damage / 10 <= 300,
                    200 <= (base.movement_speed as int) / 10 <= 600;
        }
        let speed_u: u64 = (base.movement_speed as u64) / 10 * (10 + (rl - 1));
        EnemyStats {
            max_health: base.max_health * rl,
            damage: base.damage / 10 * (10 + 3 * (rl - 1)),
            movement_speed: speed_u as i64,
            attack_speed: base.attack_speed,
        }
    }

    /// XP reward for killing this enemy at a given ring.
    pub fn xp_for_ring(&self, ring: u32) -> (r: u32)
        requires
            ring <= RING_CAP,
        ensures
            r == xp_for_ring_spec(*self, ring as int),
            r <= 2_500_000,
    {
        let base_xp: u32 = match self {
            EnemyType::Goblin | EnemyType::Wolf => 10,
            EnemyType::Orc | EnemyType::Skeleton => 15,
            EnemyType::Zombie | EnemyType::Wraith => 20,
            EnemyType::Demon => 25,
            EnemyType::Troll => 30,
            EnemyType::Dragon => 50,
            EnemyType::Lich => 40,
        };
        let rl: u32 = if ring < 1 {
            1
        } else {
            ring
        };
        base_xp * rl * 5
    }
}

/// Enemy entity. Units as in `Player`.
#[derive(Debug, Clone, Copy)]
pub struct Enemy {
    pub id: u64,
    pub enemy_type: EnemyType,
    pub position: Position,
    pub health: u64,
    pub max_health: u64,
    pub damage: u64,
    pub movement_speed: i64,
    pub attack_speed: u64,
    pub spawn_ring: u32,
    pub xp_reward: u32,
    pub last_attack_time: u64,
    pub target_player_id: Option<u64>,
}

pub open spec fn enemy_wf(e: Enemy) -> bool {
    &&& e.health <= e.max_health <= HP_CAP
    &&& e.damage <= HP_CAP
    &&& e.attack_speed <= ATTACK_SPEED_CAP
    &&& 0 <= e.movement_speed <= SPEED_CAP
    &&& in_bounds(e.position)
    &&& 1 <= e.spawn_ring <= RING_CAP
    &&& e.xp_reward <= 2_500_000
    &&& e.last_attack_time <= TIME_CAP
}

impl Enemy {
    /// A full-health enemy of the given kind, with stats and XP reward
    /// scaled for `ring`.
    pub fn new(id: u64, enemy_type: EnemyType, position: Position, ring: u32) -> (r: Enemy)
        requires
            1 <= ring <= RING_CAP,
            in_bounds(position),
        ensures
            r.id == id,
            r.enemy_type == enemy_type,
            r.position == position,
            r.health == stats_for_ring_spec(enemy_type, ring as int).max_health,
            r.max_health == stats_for_ring_spec(enemy_type, ring as int).max_health,
            r.damage == stats_for_ring_spec(enemy_type, ring as int).damage,
            r.movement_speed == stats_for_ring_spec(enemy_type, ring as int).movement_speed,
            r.attack_speed == stats_for_ring_spec(enemy_type, ring as int).attack_speed,
            r.spawn_ring == ring,
            r.xp_reward == xp_for_ring_spec(enemy_type, ring as int),
            r.last_attack_time == 0,
            r.target_player_id.is_none(),
            enemy_wf(r),
    {
        let stats = enemy_type.stats_for_ring(ring);
        let xp_reward = enemy_type.xp_for_ring(ring);
        Enemy {
            id,
            enemy_type,
            position,
            health: stats.max_health,
            max_health: stats.max_health,
            damage: stats.damage,
            movement_speed: stats.movement_speed,
            attack_speed: stats.attack_speed,
            spawn_ring: ring,
            xp_reward,
            last_attack_time: 0,
            target_player_id: None,
        }
    }

    pub fn is_alive(&self) -> (r: bool)
        ensures
            r == (self.health > 0),
    {
        self.health > 0
    }

    /// Reduce health by `amount`, clamped at zero.
    pub fn take_damage(&mut self, amount: u64)
        ensures
            *final(self) == (Enemy { health: damaged(old(self).health, amount), ..*old(self) }),
    {
        if amount >= self.health {
            self.health = 0;
        } else {
            self.health = self.health - amount;
        }
    }

    /// Whether the attack cooldown has elapsed at simulation time
    /// `current_time`.
    pub fn can_attack(&self, current_time: u64) -> (r: bool)
        ensures
            r == can_attack_at(self.attack_speed, self.last_attack_time, current_time),
    {
        attack_ready(self.attack_speed, self.last_attack_time, current_time)
    }
}

/// Enemy stat scaling is strictly increasing in the ring for health, damage
/// and movement speed, for every enemy kind.
pub proof fn lemma_stats_strictly_increasing(t: EnemyType, r1: int, r2: int)
    requires
        1 <= r1 < r2 <= RING_CAP,
    ensures
        stats_for_ring_spec(t, r1).max_health < stats_for_ring_spec(t, r2).max_health,
        stats_for_ring_spec(t, r1).damage < stats_for_ring_spec(t, r2).damage,
        stats_for_ring_spec(t, r1).movement_speed < stats_for_ring_spec(t, r2).movement_speed,
{
    let base = base_stats_spec(t);
    assert(1_500 <= base.max_health <= 15_000 && 50 <= base.damage / 10 <= 300
        && 200 <= (base.movement_speed as int) / 10 <= 600);
    assert({
        &&& 0 < base.max_health * r1 < base.max_health * r2 <= 150_000_000
        &&& 0 < base.damage / 10 * (10 + 3 * (r1 - 1)) < base.damage / 10 * (10 + 3 * (r2 - 1))
            <= 10_000_000
        &&& 0 < (base.movement_speed as int) / 10 * (10 + (r1 - 1))
            < (base.movement_speed as int) / 10 * (10 + (r2 - 1)) <= 10_000_000
    }) by (nonlinear_arith)
        requires
            1 <= r1 < r2 <= RING_CAP,
            1_500 <= base.max_health <= 15_000,
            50 <= base.damage / 10 <= 300,
            200 <= (base.movement_speed as int) / 10 <= 600;
}

/// The base stat tables stay inside fixed bounds, for every enemy kind.
pub proof fn lemma_base_stats_bounds(t: EnemyType)
    ensures
        1_500 <= base_stats_spec(t).max_health <= 15_000,
        500 <= base_stats_spec(t).damage <= 3_000,
        2_000 <= base_stats_spec(t).movement_speed <= 6_000,
        40 <= base_stats_spec(t).attack_speed <= 120,
{
}

} // verus!
